//! The envelope model: the wire-level message shape shared by every node.
//!
//! Textual fields (addresses, echo bodies, generated identifiers) are held as
//! UTF-8 byte vectors. Each exec type has a spec-level view over `Seq` so that
//! contracts and the codec's grammar can speak mathematically about values.

use vstd::prelude::*;

verus! {

/// A locally allocated message identifier: unique per originating node.
pub type MessageId = u64;

/// A node address: an opaque byte string, stable for the process's life.
pub type NodeId = Vec<u8>;

/// One complete message unit travelling between nodes.
#[derive(Debug, Clone)]
pub struct Message {
    pub src: Vec<u8>,
    pub dest: Vec<u8>,
    pub body: MessageBody,
}

/// The body of a message: correlation identifiers plus the tagged payload.
#[derive(Debug, Clone)]
pub struct MessageBody {
    pub msg_id: Option<MessageId>,
    pub in_reply_to: Option<MessageId>,
    pub payload: MessagePayload,
}

/// The tagged union of every payload this runtime understands.
///
/// `ReadOk` answers a broadcast-style read with the seen values; `ReadOkValue`
/// answers a counter-style read with the accumulated total. Both carry the
/// wire tag `read_ok` and are told apart by which field is present.
#[derive(Debug, Clone)]
pub enum MessagePayload {
    Init { node_id: Vec<u8>, node_ids: Vec<Vec<u8>> },
    InitOk,
    Echo { echo: Vec<u8> },
    EchoOk { echo: Vec<u8> },
    Generate,
    GenerateOk { id: Vec<u8> },
    Broadcast { message: i32 },
    BroadcastOk,
    Read,
    ReadOk { messages: Vec<i32> },
    ReadOkValue { value: u32 },
    Topology { topology: Vec<(Vec<u8>, Vec<Vec<u8>>)> },
    TopologyOk,
    Add { delta: u32 },
    AddOk,
}

/// Spec-level view of a `Message`.
pub struct MessageModel {
    pub src: Seq<u8>,
    pub dest: Seq<u8>,
    pub body: BodyModel,
}

/// Spec-level view of a `MessageBody`.
pub struct BodyModel {
    pub msg_id: Option<MessageId>,
    pub in_reply_to: Option<MessageId>,
    pub payload: PayloadModel,
}

/// Spec-level view of a `MessagePayload`.
pub enum PayloadModel {
    Init { node_id: Seq<u8>, node_ids: Seq<Seq<u8>> },
    InitOk,
    Echo { echo: Seq<u8> },
    EchoOk { echo: Seq<u8> },
    Generate,
    GenerateOk { id: Seq<u8> },
    Broadcast { message: i32 },
    BroadcastOk,
    Read,
    ReadOk { messages: Seq<i32> },
    ReadOkValue { value: u32 },
    Topology { topology: Seq<(Seq<u8>, Seq<Seq<u8>>)> },
    TopologyOk,
    Add { delta: u32 },
    AddOk,
}

/// View of a vector of byte strings.
pub open spec fn strs_view(v: Seq<Vec<u8>>) -> Seq<Seq<u8>> {
    v.map_values(|x: Vec<u8>| x@)
}

/// View of a topology table: ordered (key, neighbors) entries.
pub open spec fn topo_view(v: Seq<(Vec<u8>, Vec<Vec<u8>>)>) -> Seq<(Seq<u8>, Seq<Seq<u8>>)> {
    v.map_values(|p: (Vec<u8>, Vec<Vec<u8>>)| (p.0@, strs_view(p.1@)))
}

impl View for MessagePayload {
    type V = PayloadModel;

    open spec fn view(&self) -> PayloadModel {
        match self {
            MessagePayload::Init { node_id, node_ids } => PayloadModel::Init {
                node_id: node_id@,
                node_ids: strs_view(node_ids@),
            },
            MessagePayload::InitOk => PayloadModel::InitOk,
            MessagePayload::Echo { echo } => PayloadModel::Echo { echo: echo@ },
            MessagePayload::EchoOk { echo } => PayloadModel::EchoOk { echo: echo@ },
            MessagePayload::Generate => PayloadModel::Generate,
            MessagePayload::GenerateOk { id } => PayloadModel::GenerateOk { id: id@ },
            MessagePayload::Broadcast { message } => PayloadModel::Broadcast { message: *message },
            MessagePayload::BroadcastOk => PayloadModel::BroadcastOk,
            MessagePayload::Read => PayloadModel::Read,
            MessagePayload::ReadOk { messages } => PayloadModel::ReadOk { messages: messages@ },
            MessagePayload::ReadOkValue { value } => PayloadModel::ReadOkValue { value: *value },
            MessagePayload::Topology { topology } => PayloadModel::Topology {
                topology: topo_view(topology@),
            },
            MessagePayload::TopologyOk => PayloadModel::TopologyOk,
            MessagePayload::Add { delta } => PayloadModel::Add { delta: *delta },
            MessagePayload::AddOk => PayloadModel::AddOk,
        }
    }
}

impl View for MessageBody {
    type V = BodyModel;

    open spec fn view(&self) -> BodyModel {
        BodyModel { msg_id: self.msg_id, in_reply_to: self.in_reply_to, payload: self.payload@ }
    }
}

impl View for Message {
    type V = MessageModel;

    open spec fn view(&self) -> MessageModel {
        MessageModel { src: self.src@, dest: self.dest@, body: self.body@ }
    }
}

/// Byte-string equality, proved rather than trusted.
pub fn bytes_eq(a: &Vec<u8>, b: &Vec<u8>) -> (r: bool)
    ensures
        r == (a@ == b@),
{
    if a.len() != b.len() {
        assert(a@ != b@);
        return false;
    }
    let mut i: usize = 0;
    while i < a.len()
        invariant
            0 <= i <= a.len(),
            a@.len() == b@.len(),
            forall|k: int| 0 <= k < i ==> a@[k] == b@[k],
        decreases a.len() - i,
    {
        if a[i] != b[i] {
            return false;
        }
        i += 1;
    }
    assert(a@ =~= b@);
    true
}

} // verus!
