//! What every challenge node has in common: the outcome of one dispatch
//! (actions to perform, or a fatal error), and the helpers their contracts
//! share.

use vstd::prelude::*;
use crate::message::{Message, MessageModel, BodyModel, PayloadModel, MessageId, strs_view};

verus! {

/// A fatal condition: the process cannot continue past any of these.
#[derive(Debug, Clone, Copy, PartialEq, Eq, Structural)]
pub enum Error {
    /// The local MessageId counter is exhausted.
    IdsExhausted,
    /// Broadcast logic was invoked before a topology was installed.
    TopologyMissing,
    /// The installed topology has no entry for this node.
    UnknownNode,
    /// The grow-only counter cannot hold the next delta.
    CounterOverflow,
    /// A payload outside this node's accepted subset arrived.
    UnexpectedPayload,
}

/// One outbound effect a dispatch asks for.
#[derive(Debug)]
pub enum Action {
    /// Enqueue once, best effort.
    Send(Message),
    /// Register the envelope's MessageId and resend on a fixed cadence until
    /// the matching acknowledgment retires it.
    SendUntilAcked(Message),
}

/// A reply envelope: addressed back to the sender, correlated by its
/// `msg_id`.
pub open spec fn reply_to(self_id: Seq<u8>, m: MessageModel, msg_id: MessageId, payload: PayloadModel) -> MessageModel {
    MessageModel {
        src: self_id,
        dest: m.src,
        body: BodyModel { msg_id: Some(msg_id), in_reply_to: m.body.msg_id, payload },
    }
}

/// A gossip envelope: a fresh request towards one neighbor.
pub open spec fn gossip_to(self_id: Seq<u8>, dest: Seq<u8>, msg_id: MessageId, payload: PayloadModel) -> MessageModel {
    MessageModel {
        src: self_id,
        dest,
        body: BodyModel { msg_id: Some(msg_id), in_reply_to: None, payload },
    }
}

pub open spec fn action_is_send(a: Action, target: MessageModel) -> bool {
    a matches Action::Send(out) && out@ == target
}

pub open spec fn action_is_retry(a: Action, target: MessageModel) -> bool {
    a matches Action::SendUntilAcked(out) && out@ == target
}

/// The neighbor list with one address left out (the copy's immediate sender).
pub open spec fn keep_except(ns: Seq<Seq<u8>>, skip: Seq<u8>) -> Seq<Seq<u8>>
    decreases ns.len(),
{
    if ns.len() == 0 {
        Seq::empty()
    } else {
        keep_except(ns.drop_last(), skip) + (if ns.last() == skip {
            Seq::empty()
        } else {
            seq![ns.last()]
        })
    }
}

/// Executable twin of `keep_except`.
pub fn filter_neighbors(ns: &Vec<Vec<u8>>, skip: &Vec<u8>) -> (r: Vec<Vec<u8>>)
    ensures
        strs_view(r@) == keep_except(strs_view(ns@), skip@),
{
    let mut out: Vec<Vec<u8>> = Vec::new();
    proof {
        assert(strs_view(ns@).subrange(0, 0) =~= Seq::<Seq<u8>>::empty());
        assert(strs_view(out@) =~= Seq::<Seq<u8>>::empty());
    }
    let mut i: usize = 0;
    while i < ns.len()
        invariant
            0 <= i <= ns.len(),
            strs_view(out@) == keep_except(strs_view(ns@).subrange(0, i as int), skip@),
        decreases ns.len() - i,
    {
        let ghost w = strs_view(ns@);
        let ghost prev = strs_view(out@);
        if !crate::message::bytes_eq(&ns[i], skip) {
            let n = copy_bytes(&ns[i]);
            out.push(n);
            proof {
                assert(strs_view(out@) =~= prev.push(w[i as int]));
            }
        }
        proof {
            let sub1 = w.subrange(0, i + 1);
            assert(sub1.drop_last() =~= w.subrange(0, i as int));
            assert(sub1.last() == w[i as int]);
            assert(w[i as int] == ns@[i as int]@);
            if ns@[i as int]@ == skip@ {
                assert(strs_view(out@) =~= keep_except(sub1, skip@));
            } else {
                assert(strs_view(out@) =~= keep_except(sub1, skip@));
            }
        }
        i += 1;
    }
    proof {
        assert(strs_view(ns@).subrange(0, ns@.len() as int) =~= strs_view(ns@));
    }
    out
}

/// A byte-for-byte copy whose contents the contract states.
pub fn copy_bytes(v: &Vec<u8>) -> (r: Vec<u8>)
    ensures
        r@ == v@,
{
    let mut out: Vec<u8> = Vec::new();
    let mut i: usize = 0;
    while i < v.len()
        invariant
            0 <= i <= v.len(),
            out@ == v@.subrange(0, i as int),
        decreases v.len() - i,
    {
        out.push(v[i]);
        proof {
            assert(out@ =~= v@.subrange(0, i + 1));
        }
        i += 1;
    }
    proof {
        assert(v@.subrange(0, v@.len() as int) =~= v@);
    }
    out
}

/// An element-for-element copy of a number list.
pub fn copy_i32s(v: &Vec<i32>) -> (r: Vec<i32>)
    ensures
        r@ == v@,
{
    let mut out: Vec<i32> = Vec::new();
    let mut i: usize = 0;
    while i < v.len()
        invariant
            0 <= i <= v.len(),
            out@ == v@.subrange(0, i as int),
        decreases v.len() - i,
    {
        out.push(v[i]);
        proof {
            assert(out@ =~= v@.subrange(0, i + 1));
        }
        i += 1;
    }
    proof {
        assert(v@.subrange(0, v@.len() as int) =~= v@);
    }
    out
}

/// An element-for-element copy of an address list.
pub fn copy_strs(v: &Vec<Vec<u8>>) -> (r: Vec<Vec<u8>>)
    ensures
        strs_view(r@) == strs_view(v@),
{
    let mut out: Vec<Vec<u8>> = Vec::new();
    proof {
        assert(strs_view(out@) =~= strs_view(v@).subrange(0, 0));
    }
    let mut i: usize = 0;
    while i < v.len()
        invariant
            0 <= i <= v.len(),
            strs_view(out@) == strs_view(v@).subrange(0, i as int),
        decreases v.len() - i,
    {
        let ghost prev = strs_view(out@);
        let b = copy_bytes(&v[i]);
        out.push(b);
        proof {
            assert(strs_view(out@) =~= prev.push(strs_view(v@)[i as int]));
            assert(strs_view(out@) =~= strs_view(v@).subrange(0, i + 1));
        }
        i += 1;
    }
    proof {
        assert(strs_view(v@).subrange(0, v@.len() as int) =~= strs_view(v@));
    }
    out
}

/// An entry-for-entry copy of a topology table.
pub fn copy_topo(v: &Vec<(Vec<u8>, Vec<Vec<u8>>)>) -> (r: Vec<(Vec<u8>, Vec<Vec<u8>>)>)
    ensures
        crate::message::topo_view(r@) == crate::message::topo_view(v@),
{
    let mut out: Vec<(Vec<u8>, Vec<Vec<u8>>)> = Vec::new();
    proof {
        assert(crate::message::topo_view(out@) =~= crate::message::topo_view(v@).subrange(0, 0));
    }
    let mut i: usize = 0;
    while i < v.len()
        invariant
            0 <= i <= v.len(),
            crate::message::topo_view(out@) == crate::message::topo_view(v@).subrange(0, i as int),
        decreases v.len() - i,
    {
        let ghost prev = crate::message::topo_view(out@);
        let k = copy_bytes(&v[i].0);
        let val = copy_strs(&v[i].1);
        out.push((k, val));
        proof {
            assert(crate::message::topo_view(out@) =~= prev.push(
                crate::message::topo_view(v@)[i as int],
            ));
            assert(crate::message::topo_view(out@) =~= crate::message::topo_view(v@).subrange(
                0,
                i + 1,
            ));
        }
        i += 1;
    }
    proof {
        assert(crate::message::topo_view(v@).subrange(0, v@.len() as int)
            =~= crate::message::topo_view(v@));
    }
    out
}

/// The capability every challenge node offers the runtime: construction
/// from the handshake, one dispatch per envelope, and a strictly
/// increasing local MessageId allocator. Each implementation's inherent
/// methods carry the full per-challenge contract; the trait states what
/// all of them share.
pub trait Node: Sized {
    /// The identifier fixed at the handshake.
    spec fn node_id(&self) -> Seq<u8>;

    /// The last MessageId handed out.
    spec fn counter(&self) -> MessageId;

    /// The implementation's internal invariant: established at construction
    /// and preserved by every dispatch.
    spec fn inv(&self) -> bool;

    /// Construct a fresh instance: identity fixed, counter seeded at zero.
    /// Never blocks, never retries.
    fn from_init(node_id: Vec<u8>, neighbors: Vec<Vec<u8>>) -> (r: Self)
        ensures
            r.node_id() == node_id@,
            r.counter() == 0,
            r.inv(),
    ;

    /// Allocate a fresh MessageId, strictly greater than every previously
    /// returned value for this instance.
    fn next_msg_id(&mut self) -> (r: MessageId)
        requires
            old(self).counter() < MessageId::MAX,
            old(self).inv(),
        ensures
            r == old(self).counter() + 1,
            final(self).counter() == r,
            final(self).node_id() == old(self).node_id(),
            final(self).inv(),
    ;

    /// Dispatch one inbound envelope. The identity never changes, the
    /// invariant is preserved, and an envelope not addressed to this node
    /// is ignored: no actions, no allocation.
    fn handle_message(&mut self, m: &Message) -> (r: Result<Vec<Action>, Error>)
        requires
            old(self).inv(),
        ensures
            final(self).node_id() == old(self).node_id(),
            final(self).inv(),
            m@.dest != old(self).node_id() ==> (r matches Ok(acts) && acts@.len() == 0 && final(self).counter() == old(self).counter()),
    ;
}

} // verus!
