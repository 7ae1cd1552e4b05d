//! The envelope codec: one UTF-8 JSON object per envelope.
//!
//! `spec_decode` is the grammar: an object whose fields may come in any
//! order, with insignificant whitespace allowed between tokens and fields
//! this runtime does not know stepped over. `enc_message` is the canonical,
//! compact rendering. The executable `decode` and `encode` are
//! proved equal to them, and `roundtrip` proves that decoding a rendering
//! gives the envelope back.

use vstd::prelude::*;
use crate::json::{
    enc_string, parse_string, enc_i32, parse_i32, parse_u64, enc_opt_id, parse_opt_id, dec_digits,
    skip_ws, scan_string, scan_i32, scan_u64, scan_opt_id, scan_ws, push_string, push_i32,
    push_u64, push_opt_id,
};
use crate::jval::{
    enc_strs, parse_strs, enc_i32s, parse_i32s, enc_topo, parse_topo, skip_value, scan_strs,
    scan_i32s, scan_topo, scan_skip_value, push_strs, push_i32s, push_topo,
};
use crate::lit::{
    k_src, k_dest, k_body, k_msg_id, k_in_reply_to, k_type, k_echo, k_id, k_node_id, k_node_ids,
    k_message, k_messages, k_topology, k_delta, k_value, t_init, t_init_ok, t_echo, t_echo_ok,
    t_generate, t_generate_ok, t_broadcast, t_broadcast_ok, t_read, t_read_ok, t_topology,
    t_topology_ok, t_add, t_add_ok, lit_src, lit_dest, lit_body, lit_msg_id, lit_in_reply_to,
    lit_type, lit_echo, lit_id, lit_node_id, lit_node_ids, lit_message, lit_messages,
    lit_topology, lit_delta, lit_value, tag_init, tag_init_ok, tag_echo, tag_echo_ok,
    tag_generate, tag_generate_ok, tag_broadcast, tag_broadcast_ok, tag_read, tag_read_ok,
    tag_topology, tag_topology_ok, tag_add, tag_add_ok,
};
use crate::message::{
    Message, MessageBody, MessagePayload, MessageModel, BodyModel, PayloadModel, strs_view,
    topo_view, bytes_eq,
};

verus! {

// ---------------------------------------------------------------------------
// Unsigned 32-bit values (the counter payloads)
// ---------------------------------------------------------------------------

pub open spec fn parse_u32(s: Seq<u8>, i: int) -> Option<(u32, int)> {
    match parse_u64(s, i) {
        Some((n, j)) => if n <= u32::MAX {
            Some((n as u32, j))
        } else {
            None
        },
        None => None,
    }
}

pub fn scan_u32(s: &Vec<u8>, i: usize) -> (r: Option<(u32, usize)>)
    requires
        i <= s.len(),
    ensures
        match r {
            Some((v, j)) => parse_u32(s@, i as int) == Some::<(u32, int)>((v, j as int)) && i < j
                <= s.len(),
            None => parse_u32(s@, i as int) is None,
        },
{
    match scan_u64(s, i) {
        Some((n, j)) => {
            if n <= u32::MAX as u64 {
                Some((n as u32, j))
            } else {
                None
            }
        },
        None => None,
    }
}

// ---------------------------------------------------------------------------
// Field slots: what an object's known fields held, in any order
// ---------------------------------------------------------------------------

/// Spec-level slots for the known fields of a body object.
pub struct Slots {
    pub msg_id: Option<u64>,
    pub in_reply_to: Option<u64>,
    pub tag: Option<Seq<u8>>,
    pub echo: Option<Seq<u8>>,
    pub id: Option<Seq<u8>>,
    pub node_id: Option<Seq<u8>>,
    pub node_ids: Option<Seq<Seq<u8>>>,
    pub message: Option<i32>,
    pub messages: Option<Seq<i32>>,
    pub topology: Option<Seq<(Seq<u8>, Seq<Seq<u8>>)>>,
    pub delta: Option<u32>,
    pub value: Option<u32>,
}

pub open spec fn empty_slots() -> Slots {
    Slots {
        msg_id: None,
        in_reply_to: None,
        tag: None,
        echo: None,
        id: None,
        node_id: None,
        node_ids: None,
        message: None,
        messages: None,
        topology: None,
        delta: None,
        value: None,
    }
}

/// Parse one known (or unknown) field value at `i`, filling the slot `k` names.
pub open spec fn parse_field_value(s: Seq<u8>, i: int, k: Seq<u8>, sl: Slots) -> Option<
    (Slots, int),
> {
    if k == k_msg_id() {
        match parse_opt_id(s, i) {
            Some((o, j)) => Some((Slots { msg_id: o, ..sl }, j)),
            None => None,
        }
    } else if k == k_in_reply_to() {
        match parse_opt_id(s, i) {
            Some((o, j)) => Some((Slots { in_reply_to: o, ..sl }, j)),
            None => None,
        }
    } else if k == k_type() {
        match parse_string(s, i) {
            Some((t, j)) => Some((Slots { tag: Some(t), ..sl }, j)),
            None => None,
        }
    } else if k == k_echo() {
        match parse_string(s, i) {
            Some((t, j)) => Some((Slots { echo: Some(t), ..sl }, j)),
            None => None,
        }
    } else if k == k_id() {
        match parse_string(s, i) {
            Some((t, j)) => Some((Slots { id: Some(t), ..sl }, j)),
            None => None,
        }
    } else if k == k_node_id() {
        match parse_string(s, i) {
            Some((t, j)) => Some((Slots { node_id: Some(t), ..sl }, j)),
            None => None,
        }
    } else if k == k_node_ids() {
        match parse_strs(s, i) {
            Some((v, j)) => Some((Slots { node_ids: Some(v), ..sl }, j)),
            None => None,
        }
    } else if k == k_message() {
        match parse_i32(s, i) {
            Some((v, j)) => Some((Slots { message: Some(v), ..sl }, j)),
            None => None,
        }
    } else if k == k_messages() {
        match parse_i32s(s, i) {
            Some((v, j)) => Some((Slots { messages: Some(v), ..sl }, j)),
            None => None,
        }
    } else if k == k_topology() {
        match parse_topo(s, i) {
            Some((v, j)) => Some((Slots { topology: Some(v), ..sl }, j)),
            None => None,
        }
    } else if k == k_delta() {
        match parse_u32(s, i) {
            Some((v, j)) => Some((Slots { delta: Some(v), ..sl }, j)),
            None => None,
        }
    } else if k == k_value() {
        match parse_u32(s, i) {
            Some((v, j)) => Some((Slots { value: Some(v), ..sl }, j)),
            None => None,
        }
    } else {
        match skip_value(s, i) {
            Some(j) => Some((sl, j)),
            None => None,
        }
    }
}

/// The field list of a body object: `"key":value` pairs separated by commas,
/// closed by `}`.
pub open spec fn parse_body_fields(s: Seq<u8>, i: int, sl: Slots) -> Option<(Slots, int)>
    decreases s.len() - i,
{
    match parse_string(s, i) {
        None => None,
        Some((k, j)) => {
            let j1 = skip_ws(s, j);
            if !(i < j && j <= j1 && j1 < s.len() && s[j1] == 58) {
                None
            } else {
                let v = skip_ws(s, j1 + 1);
                if !(j1 + 1 <= v && v <= s.len()) {
                    None
                } else {
                    match parse_field_value(s, v, k, sl) {
                        None => None,
                        Some((sl2, j2)) => {
                            let j3 = skip_ws(s, j2);
                            if !(v < j2 && j2 <= j3 && j3 < s.len()) {
                                None
                            } else if s[j3] == 44 {
                                let nx = skip_ws(s, j3 + 1);
                                if !(j3 + 1 <= nx && nx <= s.len()) {
                                    None
                                } else {
                                    parse_body_fields(s, nx, sl2)
                                }
                            } else if s[j3] == 125 {
                                Some((sl2, j3 + 1))
                            } else {
                                None
                            }
                        },
                    }
                }
            }
        },
    }
}

/// Build the payload a filled slot set denotes, if the tag and its required
/// fields are there. Both read replies carry the tag `read_ok`; which field
/// is present tells them apart.
pub open spec fn assemble_payload(sl: Slots) -> Option<PayloadModel> {
    match sl.tag {
        None => None,
        Some(tg) => {
            if tg == t_init() {
                match (sl.node_id, sl.node_ids) {
                    (Some(ni), Some(ns)) => Some(PayloadModel::Init { node_id: ni, node_ids: ns }),
                    _ => None,
                }
            } else if tg == t_init_ok() {
                Some(PayloadModel::InitOk)
            } else if tg == t_echo() {
                match sl.echo {
                    Some(e) => Some(PayloadModel::Echo { echo: e }),
                    None => None,
                }
            } else if tg == t_echo_ok() {
                match sl.echo {
                    Some(e) => Some(PayloadModel::EchoOk { echo: e }),
                    None => None,
                }
            } else if tg == t_generate() {
                Some(PayloadModel::Generate)
            } else if tg == t_generate_ok() {
                match sl.id {
                    Some(x) => Some(PayloadModel::GenerateOk { id: x }),
                    None => None,
                }
            } else if tg == t_broadcast() {
                match sl.message {
                    Some(v) => Some(PayloadModel::Broadcast { message: v }),
                    None => None,
                }
            } else if tg == t_broadcast_ok() {
                Some(PayloadModel::BroadcastOk)
            } else if tg == t_read() {
                Some(PayloadModel::Read)
            } else if tg == t_read_ok() {
                match sl.value {
                    Some(v) => Some(PayloadModel::ReadOkValue { value: v }),
                    None => match sl.messages {
                        Some(ms) => Some(PayloadModel::ReadOk { messages: ms }),
                        None => None,
                    },
                }
            } else if tg == t_topology() {
                match sl.topology {
                    Some(tp) => Some(PayloadModel::Topology { topology: tp }),
                    None => None,
                }
            } else if tg == t_topology_ok() {
                Some(PayloadModel::TopologyOk)
            } else if tg == t_add() {
                match sl.delta {
                    Some(d) => Some(PayloadModel::Add { delta: d }),
                    None => None,
                }
            } else if tg == t_add_ok() {
                Some(PayloadModel::AddOk)
            } else {
                None
            }
        },
    }
}

/// A body object at `i`.
pub open spec fn parse_body(s: Seq<u8>, i: int) -> Option<(BodyModel, int)> {
    if 0 <= i < s.len() && s[i] == 123 {
        let j0 = skip_ws(s, i + 1);
        let inner = if !(i + 1 <= j0 && j0 < s.len()) {
            None
        } else if s[j0] == 125 {
            Some((empty_slots(), j0 + 1))
        } else {
            parse_body_fields(s, j0, empty_slots())
        };
        match inner {
            None => None,
            Some((sl, j)) => match assemble_payload(sl) {
                None => None,
                Some(p) => Some(
                    (BodyModel { msg_id: sl.msg_id, in_reply_to: sl.in_reply_to, payload: p }, j),
                ),
            },
        }
    } else {
        None
    }
}

/// Spec-level slots for the known fields of an envelope object.
pub struct MSlots {
    pub src: Option<Seq<u8>>,
    pub dest: Option<Seq<u8>>,
    pub body: Option<BodyModel>,
}

pub open spec fn empty_mslots() -> MSlots {
    MSlots { src: None, dest: None, body: None }
}

pub open spec fn parse_msg_field_value(s: Seq<u8>, i: int, k: Seq<u8>, ms: MSlots) -> Option<
    (MSlots, int),
> {
    if k == k_src() {
        match parse_string(s, i) {
            Some((t, j)) => Some((MSlots { src: Some(t), ..ms }, j)),
            None => None,
        }
    } else if k == k_dest() {
        match parse_string(s, i) {
            Some((t, j)) => Some((MSlots { dest: Some(t), ..ms }, j)),
            None => None,
        }
    } else if k == k_body() {
        match parse_body(s, i) {
            Some((b, j)) => Some((MSlots { body: Some(b), ..ms }, j)),
            None => None,
        }
    } else {
        match skip_value(s, i) {
            Some(j) => Some((ms, j)),
            None => None,
        }
    }
}

pub open spec fn parse_msg_fields(s: Seq<u8>, i: int, ms: MSlots) -> Option<(MSlots, int)>
    decreases s.len() - i,
{
    match parse_string(s, i) {
        None => None,
        Some((k, j)) => {
            let j1 = skip_ws(s, j);
            if !(i < j && j <= j1 && j1 < s.len() && s[j1] == 58) {
                None
            } else {
                let v = skip_ws(s, j1 + 1);
                if !(j1 + 1 <= v && v <= s.len()) {
                    None
                } else {
                    match parse_msg_field_value(s, v, k, ms) {
                        None => None,
                        Some((ms2, j2)) => {
                            let j3 = skip_ws(s, j2);
                            if !(v < j2 && j2 <= j3 && j3 < s.len()) {
                                None
                            } else if s[j3] == 44 {
                                let nx = skip_ws(s, j3 + 1);
                                if !(j3 + 1 <= nx && nx <= s.len()) {
                                    None
                                } else {
                                    parse_msg_fields(s, nx, ms2)
                                }
                            } else if s[j3] == 125 {
                                Some((ms2, j3 + 1))
                            } else {
                                None
                            }
                        },
                    }
                }
            }
        },
    }
}

/// A whole envelope object at `i`.
pub open spec fn parse_message(s: Seq<u8>, i: int) -> Option<(MessageModel, int)> {
    if 0 <= i < s.len() && s[i] == 123 {
        let j0 = skip_ws(s, i + 1);
        let inner = if !(i + 1 <= j0 && j0 < s.len()) {
            None
        } else if s[j0] == 125 {
            Some((empty_mslots(), j0 + 1))
        } else {
            parse_msg_fields(s, j0, empty_mslots())
        };
        match inner {
            None => None,
            Some((ms, j)) => match (ms.src, ms.dest, ms.body) {
                (Some(sv), Some(dv), Some(b)) => Some(
                    (MessageModel { src: sv, dest: dv, body: b }, j),
                ),
                _ => None,
            },
        }
    } else {
        None
    }
}

/// The decode relation: one envelope object filling the whole line, with
/// insignificant whitespace allowed around it.
pub open spec fn spec_decode(s: Seq<u8>) -> Option<MessageModel> {
    match parse_message(s, skip_ws(s, 0)) {
        Some((m, j)) => if skip_ws(s, j) == s.len() {
            Some(m)
        } else {
            None
        },
        None => None,
    }
}

// ---------------------------------------------------------------------------
// Canonical rendering
// ---------------------------------------------------------------------------

pub open spec fn tag_of(p: PayloadModel) -> Seq<u8> {
    match p {
        PayloadModel::Init { .. } => t_init(),
        PayloadModel::InitOk => t_init_ok(),
        PayloadModel::Echo { .. } => t_echo(),
        PayloadModel::EchoOk { .. } => t_echo_ok(),
        PayloadModel::Generate => t_generate(),
        PayloadModel::GenerateOk { .. } => t_generate_ok(),
        PayloadModel::Broadcast { .. } => t_broadcast(),
        PayloadModel::BroadcastOk => t_broadcast_ok(),
        PayloadModel::Read => t_read(),
        PayloadModel::ReadOk { .. } => t_read_ok(),
        PayloadModel::ReadOkValue { .. } => t_read_ok(),
        PayloadModel::Topology { .. } => t_topology(),
        PayloadModel::TopologyOk => t_topology_ok(),
        PayloadModel::Add { .. } => t_add(),
        PayloadModel::AddOk => t_add_ok(),
    }
}

/// The payload's own fields, each preceded by a comma (the tag came before).
pub open spec fn enc_payload_fields(p: PayloadModel) -> Seq<u8> {
    match p {
        PayloadModel::Init { node_id, node_ids } => seq![44u8] + enc_string(k_node_id())
            + seq![58u8] + enc_string(node_id) + seq![44u8] + enc_string(k_node_ids()) + seq![58u8]
            + enc_strs(node_ids),
        PayloadModel::InitOk => Seq::empty(),
        PayloadModel::Echo { echo } => seq![44u8] + enc_string(k_echo()) + seq![58u8] + enc_string(
            echo,
        ),
        PayloadModel::EchoOk { echo } => seq![44u8] + enc_string(k_echo()) + seq![58u8]
            + enc_string(echo),
        PayloadModel::Generate => Seq::empty(),
        PayloadModel::GenerateOk { id } => seq![44u8] + enc_string(k_id()) + seq![58u8]
            + enc_string(id),
        PayloadModel::Broadcast { message } => seq![44u8] + enc_string(k_message()) + seq![58u8]
            + enc_i32(message),
        PayloadModel::BroadcastOk => Seq::empty(),
        PayloadModel::Read => Seq::empty(),
        PayloadModel::ReadOk { messages } => seq![44u8] + enc_string(k_messages()) + seq![58u8]
            + enc_i32s(messages),
        PayloadModel::ReadOkValue { value } => seq![44u8] + enc_string(k_value()) + seq![58u8]
            + dec_digits(value as nat),
        PayloadModel::Topology { topology } => seq![44u8] + enc_string(k_topology()) + seq![58u8]
            + enc_topo(topology),
        PayloadModel::TopologyOk => Seq::empty(),
        PayloadModel::Add { delta } => seq![44u8] + enc_string(k_delta()) + seq![58u8]
            + dec_digits(delta as nat),
        PayloadModel::AddOk => Seq::empty(),
    }
}

/// Everything between a body object's braces.
pub open spec fn enc_body_inner(b: BodyModel) -> Seq<u8> {
    enc_string(k_msg_id()) + seq![58u8] + enc_opt_id(b.msg_id) + seq![44u8] + enc_string(
        k_in_reply_to(),
    ) + seq![58u8] + enc_opt_id(b.in_reply_to) + seq![44u8] + enc_string(k_type()) + seq![58u8]
        + enc_string(tag_of(b.payload)) + enc_payload_fields(b.payload)
}

pub open spec fn enc_body(b: BodyModel) -> Seq<u8> {
    seq![123u8] + enc_body_inner(b) + seq![125u8]
}

pub open spec fn enc_message(m: MessageModel) -> Seq<u8> {
    seq![123u8] + enc_string(k_src()) + seq![58u8] + enc_string(m.src) + seq![44u8] + enc_string(
        k_dest(),
    ) + seq![58u8] + enc_string(m.dest) + seq![44u8] + enc_string(k_body()) + seq![58u8]
        + enc_body(m.body) + seq![125u8]
}

// ---------------------------------------------------------------------------
// Executable encoder
// ---------------------------------------------------------------------------

fn push_tag(out: &mut Vec<u8>, p: &MessagePayload)
    ensures
        final(out)@ == old(out)@ + enc_string(tag_of(p@)),
{
    let t: Vec<u8> = match p {
        MessagePayload::Init { .. } => tag_init(),
        MessagePayload::InitOk => tag_init_ok(),
        MessagePayload::Echo { .. } => tag_echo(),
        MessagePayload::EchoOk { .. } => tag_echo_ok(),
        MessagePayload::Generate => tag_generate(),
        MessagePayload::GenerateOk { .. } => tag_generate_ok(),
        MessagePayload::Broadcast { .. } => tag_broadcast(),
        MessagePayload::BroadcastOk => tag_broadcast_ok(),
        MessagePayload::Read => tag_read(),
        MessagePayload::ReadOk { .. } => tag_read_ok(),
        MessagePayload::ReadOkValue { .. } => tag_read_ok(),
        MessagePayload::Topology { .. } => tag_topology(),
        MessagePayload::TopologyOk => tag_topology_ok(),
        MessagePayload::Add { .. } => tag_add(),
        MessagePayload::AddOk => tag_add_ok(),
    };
    push_string(out, &t);
}

fn push_key(out: &mut Vec<u8>, key: Vec<u8>)
    ensures
        final(out)@ == old(out)@ + seq![44u8] + enc_string(key@) + seq![58u8],
{
    out.push(44);
    assert(out@ =~= old(out)@ + seq![44u8]);
    push_string(out, &key);
    out.push(58);
    assert(out@ =~= old(out)@ + seq![44u8] + enc_string(key@) + seq![58u8]);
}

fn push_payload_fields(out: &mut Vec<u8>, p: &MessagePayload)
    ensures
        final(out)@ == old(out)@ + enc_payload_fields(p@),
{
    match p {
        MessagePayload::Init { node_id, node_ids } => {
            push_key(out, lit_node_id());
            push_string(out, node_id);
            push_key(out, lit_node_ids());
            push_strs(out, node_ids);
            assert(out@ =~= old(out)@ + enc_payload_fields(p@));
        },
        MessagePayload::Echo { echo } => {
            push_key(out, lit_echo());
            push_string(out, echo);
            assert(out@ =~= old(out)@ + enc_payload_fields(p@));
        },
        MessagePayload::EchoOk { echo } => {
            push_key(out, lit_echo());
            push_string(out, echo);
            assert(out@ =~= old(out)@ + enc_payload_fields(p@));
        },
        MessagePayload::GenerateOk { id } => {
            push_key(out, lit_id());
            push_string(out, id);
            assert(out@ =~= old(out)@ + enc_payload_fields(p@));
        },
        MessagePayload::Broadcast { message } => {
            push_key(out, lit_message());
            push_i32(out, *message);
            assert(out@ =~= old(out)@ + enc_payload_fields(p@));
        },
        MessagePayload::ReadOk { messages } => {
            push_key(out, lit_messages());
            push_i32s(out, messages);
            assert(out@ =~= old(out)@ + enc_payload_fields(p@));
        },
        MessagePayload::ReadOkValue { value } => {
            push_key(out, lit_value());
            push_u64(out, *value as u64);
            assert(out@ =~= old(out)@ + enc_payload_fields(p@));
        },
        MessagePayload::Topology { topology } => {
            push_key(out, lit_topology());
            push_topo(out, topology);
            assert(out@ =~= old(out)@ + enc_payload_fields(p@));
        },
        MessagePayload::Add { delta } => {
            push_key(out, lit_delta());
            push_u64(out, *delta as u64);
            assert(out@ =~= old(out)@ + enc_payload_fields(p@));
        },
        _ => {
            assert(enc_payload_fields(p@) =~= Seq::<u8>::empty());
            assert(out@ =~= old(out)@ + enc_payload_fields(p@));
        },
    }
}

fn push_body(out: &mut Vec<u8>, b: &MessageBody)
    ensures
        final(out)@ == old(out)@ + enc_body(b@),
{
    out.push(123);
    assert(out@ =~= old(out)@ + seq![123u8]);
    push_string(out, &lit_msg_id());
    out.push(58);
    assert(out@ =~= old(out)@ + seq![123u8] + enc_string(k_msg_id()) + seq![58u8]);
    push_opt_id(out, &b.msg_id);
    push_key(out, lit_in_reply_to());
    push_opt_id(out, &b.in_reply_to);
    push_key(out, lit_type());
    push_tag(out, &b.payload);
    push_payload_fields(out, &b.payload);
    out.push(125);
    assert(out@ =~= old(out)@ + enc_body(b@));
}

/// Render an envelope as one JSON object, its canonical wire form.
pub fn encode(m: &Message) -> (r: Vec<u8>)
    ensures
        r@ == enc_message(m@),
{
    let mut out: Vec<u8> = Vec::new();
    out.push(123);
    assert(out@ =~= seq![123u8]);
    push_string(&mut out, &lit_src());
    out.push(58);
    assert(out@ =~= seq![123u8] + enc_string(k_src()) + seq![58u8]);
    push_string(&mut out, &m.src);
    push_key(&mut out, lit_dest());
    push_string(&mut out, &m.dest);
    push_key(&mut out, lit_body());
    push_body(&mut out, &m.body);
    out.push(125);
    assert(out@ =~= enc_message(m@));
    out
}

// ---------------------------------------------------------------------------
// Executable decoder
// ---------------------------------------------------------------------------

/// Executable slots for a body object's known fields.
pub struct FieldSlots {
    pub msg_id: Option<u64>,
    pub in_reply_to: Option<u64>,
    pub tag: Option<Vec<u8>>,
    pub echo: Option<Vec<u8>>,
    pub id: Option<Vec<u8>>,
    pub node_id: Option<Vec<u8>>,
    pub node_ids: Option<Vec<Vec<u8>>>,
    pub message: Option<i32>,
    pub messages: Option<Vec<i32>>,
    pub topology: Option<Vec<(Vec<u8>, Vec<Vec<u8>>)>>,
    pub delta: Option<u32>,
    pub value: Option<u32>,
}

impl View for FieldSlots {
    type V = Slots;

    open spec fn view(&self) -> Slots {
        Slots {
            msg_id: self.msg_id,
            in_reply_to: self.in_reply_to,
            tag: match self.tag {
                Some(ref v) => Some(v@),
                None => None,
            },
            echo: match self.echo {
                Some(ref v) => Some(v@),
                None => None,
            },
            id: match self.id {
                Some(ref v) => Some(v@),
                None => None,
            },
            node_id: match self.node_id {
                Some(ref v) => Some(v@),
                None => None,
            },
            node_ids: match self.node_ids {
                Some(ref v) => Some(strs_view(v@)),
                None => None,
            },
            message: self.message,
            messages: match self.messages {
                Some(ref v) => Some(v@),
                None => None,
            },
            topology: match self.topology {
                Some(ref v) => Some(topo_view(v@)),
                None => None,
            },
            delta: self.delta,
            value: self.value,
        }
    }
}

fn new_field_slots() -> (r: FieldSlots)
    ensures
        r@ == empty_slots(),
{
    FieldSlots {
        msg_id: None,
        in_reply_to: None,
        tag: None,
        echo: None,
        id: None,
        node_id: None,
        node_ids: None,
        message: None,
        messages: None,
        topology: None,
        delta: None,
        value: None,
    }
}

fn scan_body_fields(s: &Vec<u8>, i: usize, fs: FieldSlots) -> (r: Option<(FieldSlots, usize)>)
    requires
        i <= s.len(),
    ensures
        match r {
            Some((fs2, j)) => parse_body_fields(s@, i as int, fs@) == Some::<(Slots, int)>(
                (fs2@, j as int),
            ) && i < j <= s.len(),
            None => parse_body_fields(s@, i as int, fs@) is None,
        },
    decreases s@.len() - i,
{
    let mut fs = fs;
    let ghost sl0 = fs@;
    match scan_string(s, i) {
        None => None,
        Some((k, j)) => {
            let j1 = scan_ws(s, j);
            if !(j1 < s.len() && s[j1] == 58) {
                return None;
            }
            let vstart = scan_ws(s, j1 + 1);
            let stepped: Option<usize> = if bytes_eq(&k, &lit_msg_id()) {
                match scan_opt_id(s, vstart) {
                    Some((o, j2)) => {
                        fs.msg_id = o;
                        proof {
                            assert(fs@ == Slots { msg_id: o, ..sl0 });
                        }
                        Some(j2)
                    },
                    None => None,
                }
            } else if bytes_eq(&k, &lit_in_reply_to()) {
                match scan_opt_id(s, vstart) {
                    Some((o, j2)) => {
                        fs.in_reply_to = o;
                        Some(j2)
                    },
                    None => None,
                }
            } else if bytes_eq(&k, &lit_type()) {
                match scan_string(s, vstart) {
                    Some((t, j2)) => {
                        fs.tag = Some(t);
                        Some(j2)
                    },
                    None => None,
                }
            } else if bytes_eq(&k, &lit_echo()) {
                match scan_string(s, vstart) {
                    Some((t, j2)) => {
                        fs.echo = Some(t);
                        Some(j2)
                    },
                    None => None,
                }
            } else if bytes_eq(&k, &lit_id()) {
                match scan_string(s, vstart) {
                    Some((t, j2)) => {
                        fs.id = Some(t);
                        Some(j2)
                    },
                    None => None,
                }
            } else if bytes_eq(&k, &lit_node_id()) {
                match scan_string(s, vstart) {
                    Some((t, j2)) => {
                        fs.node_id = Some(t);
                        Some(j2)
                    },
                    None => None,
                }
            } else if bytes_eq(&k, &lit_node_ids()) {
                match scan_strs(s, vstart) {
                    Some((v, j2)) => {
                        fs.node_ids = Some(v);
                        Some(j2)
                    },
                    None => None,
                }
            } else if bytes_eq(&k, &lit_message()) {
                match scan_i32(s, vstart) {
                    Some((v, j2)) => {
                        fs.message = Some(v);
                        Some(j2)
                    },
                    None => None,
                }
            } else if bytes_eq(&k, &lit_messages()) {
                match scan_i32s(s, vstart) {
                    Some((v, j2)) => {
                        fs.messages = Some(v);
                        Some(j2)
                    },
                    None => None,
                }
            } else if bytes_eq(&k, &lit_topology()) {
                match scan_topo(s, vstart) {
                    Some((v, j2)) => {
                        fs.topology = Some(v);
                        Some(j2)
                    },
                    None => None,
                }
            } else if bytes_eq(&k, &lit_delta()) {
                match scan_u32(s, vstart) {
                    Some((v, j2)) => {
                        fs.delta = Some(v);
                        Some(j2)
                    },
                    None => None,
                }
            } else if bytes_eq(&k, &lit_value()) {
                match scan_u32(s, vstart) {
                    Some((v, j2)) => {
                        fs.value = Some(v);
                        Some(j2)
                    },
                    None => None,
                }
            } else {
                scan_skip_value(s, vstart)
            };
            match stepped {
                None => {
                    assert(parse_field_value(s@, vstart as int, k@, sl0) is None);
                    None
                },
                Some(j2) => {
                    assert(parse_field_value(s@, vstart as int, k@, sl0) == Some::<(Slots, int)>(
                        (fs@, j2 as int),
                    ));
                    if !(vstart < j2) {
                        return None;
                    }
                    let j3 = scan_ws(s, j2);
                    if !(j3 < s.len()) {
                        return None;
                    }
                    if s[j3] == 44 {
                        let nx = scan_ws(s, j3 + 1);
                        scan_body_fields(s, nx, fs)
                    } else if s[j3] == 125 {
                        Some((fs, j3 + 1))
                    } else {
                        None
                    }
                },
            }
        },
    }
}

fn assemble(fs: FieldSlots) -> (r: Option<MessagePayload>)
    ensures
        match r {
            Some(p) => assemble_payload(fs@) == Some(p@),
            None => assemble_payload(fs@) is None,
        },
{
    let FieldSlots {
        msg_id: _,
        in_reply_to: _,
        tag,
        echo,
        id,
        node_id,
        node_ids,
        message,
        messages,
        topology,
        delta,
        value,
    } = fs;
    match tag {
        None => None,
        Some(tg) => {
            if bytes_eq(&tg, &tag_init()) {
                match (node_id, node_ids) {
                    (Some(ni), Some(ns)) => Some(
                        MessagePayload::Init { node_id: ni, node_ids: ns },
                    ),
                    _ => None,
                }
            } else if bytes_eq(&tg, &tag_init_ok()) {
                Some(MessagePayload::InitOk)
            } else if bytes_eq(&tg, &tag_echo()) {
                match echo {
                    Some(e) => Some(MessagePayload::Echo { echo: e }),
                    None => None,
                }
            } else if bytes_eq(&tg, &tag_echo_ok()) {
                match echo {
                    Some(e) => Some(MessagePayload::EchoOk { echo: e }),
                    None => None,
                }
            } else if bytes_eq(&tg, &tag_generate()) {
                Some(MessagePayload::Generate)
            } else if bytes_eq(&tg, &tag_generate_ok()) {
                match id {
                    Some(x) => Some(MessagePayload::GenerateOk { id: x }),
                    None => None,
                }
            } else if bytes_eq(&tg, &tag_broadcast()) {
                match message {
                    Some(v) => Some(MessagePayload::Broadcast { message: v }),
                    None => None,
                }
            } else if bytes_eq(&tg, &tag_broadcast_ok()) {
                Some(MessagePayload::BroadcastOk)
            } else if bytes_eq(&tg, &tag_read()) {
                Some(MessagePayload::Read)
            } else if bytes_eq(&tg, &tag_read_ok()) {
                match value {
                    Some(v) => Some(MessagePayload::ReadOkValue { value: v }),
                    None => match messages {
                        Some(ms) => Some(MessagePayload::ReadOk { messages: ms }),
                        None => None,
                    },
                }
            } else if bytes_eq(&tg, &tag_topology()) {
                match topology {
                    Some(tp) => Some(MessagePayload::Topology { topology: tp }),
                    None => None,
                }
            } else if bytes_eq(&tg, &tag_topology_ok()) {
                Some(MessagePayload::TopologyOk)
            } else if bytes_eq(&tg, &tag_add()) {
                match delta {
                    Some(d) => Some(MessagePayload::Add { delta: d }),
                    None => None,
                }
            } else if bytes_eq(&tg, &tag_add_ok()) {
                Some(MessagePayload::AddOk)
            } else {
                None
            }
        },
    }
}

fn scan_body(s: &Vec<u8>, i: usize) -> (r: Option<(MessageBody, usize)>)
    requires
        i <= s.len(),
    ensures
        match r {
            Some((b, j)) => parse_body(s@, i as int) == Some::<(BodyModel, int)>((b@, j as int))
                && i < j <= s.len(),
            None => parse_body(s@, i as int) is None,
        },
{
    if !(i < s.len() && s[i] == 123) {
        return None;
    }
    let j0 = scan_ws(s, i + 1);
    if j0 >= s.len() {
        return None;
    }
    let inner: Option<(FieldSlots, usize)> = if s[j0] == 125 {
        Some((new_field_slots(), j0 + 1))
    } else {
        scan_body_fields(s, j0, new_field_slots())
    };
    match inner {
        None => None,
        Some((fs, j)) => {
            let msg_id = fs.msg_id;
            let in_reply_to = fs.in_reply_to;
            let ghost slv = fs@;
            match assemble(fs) {
                None => None,
                Some(p) => Some((MessageBody { msg_id, in_reply_to, payload: p }, j)),
            }
        },
    }
}

pub struct MsgSlots {
    pub src: Option<Vec<u8>>,
    pub dest: Option<Vec<u8>>,
    pub body: Option<MessageBody>,
}

impl View for MsgSlots {
    type V = MSlots;

    open spec fn view(&self) -> MSlots {
        MSlots {
            src: match self.src {
                Some(ref v) => Some(v@),
                None => None,
            },
            dest: match self.dest {
                Some(ref v) => Some(v@),
                None => None,
            },
            body: match self.body {
                Some(ref b) => Some(b@),
                None => None,
            },
        }
    }
}

fn scan_msg_fields(s: &Vec<u8>, i: usize, ms: MsgSlots) -> (r: Option<(MsgSlots, usize)>)
    requires
        i <= s.len(),
    ensures
        match r {
            Some((ms2, j)) => parse_msg_fields(s@, i as int, ms@) == Some::<(MSlots, int)>(
                (ms2@, j as int),
            ) && i < j <= s.len(),
            None => parse_msg_fields(s@, i as int, ms@) is None,
        },
    decreases s@.len() - i,
{
    let mut ms = ms;
    let ghost ms0 = ms@;
    match scan_string(s, i) {
        None => None,
        Some((k, j)) => {
            let j1 = scan_ws(s, j);
            if !(j1 < s.len() && s[j1] == 58) {
                return None;
            }
            let vstart = scan_ws(s, j1 + 1);
            let stepped: Option<usize> = if bytes_eq(&k, &lit_src()) {
                match scan_string(s, vstart) {
                    Some((t, j2)) => {
                        ms.src = Some(t);
                        Some(j2)
                    },
                    None => None,
                }
            } else if bytes_eq(&k, &lit_dest()) {
                match scan_string(s, vstart) {
                    Some((t, j2)) => {
                        ms.dest = Some(t);
                        Some(j2)
                    },
                    None => None,
                }
            } else if bytes_eq(&k, &lit_body()) {
                match scan_body(s, vstart) {
                    Some((b, j2)) => {
                        ms.body = Some(b);
                        Some(j2)
                    },
                    None => None,
                }
            } else {
                scan_skip_value(s, vstart)
            };
            match stepped {
                None => {
                    assert(parse_msg_field_value(s@, vstart as int, k@, ms0) is None);
                    None
                },
                Some(j2) => {
                    assert(parse_msg_field_value(s@, vstart as int, k@, ms0) == Some::<
                        (MSlots, int),
                    >((ms@, j2 as int)));
                    if !(vstart < j2) {
                        return None;
                    }
                    let j3 = scan_ws(s, j2);
                    if !(j3 < s.len()) {
                        return None;
                    }
                    if s[j3] == 44 {
                        let nx = scan_ws(s, j3 + 1);
                        scan_msg_fields(s, nx, ms)
                    } else if s[j3] == 125 {
                        Some((ms, j3 + 1))
                    } else {
                        None
                    }
                },
            }
        },
    }
}

/// Decode one line as an envelope. `None` means the line is malformed: it is
/// not one whole object of the wire grammar.
pub fn decode(line: &Vec<u8>) -> (r: Option<Message>)
    ensures
        match r {
            Some(m) => spec_decode(line@) == Some(m@),
            None => spec_decode(line@) is None,
        },
{
    let s = line;
    let st = scan_ws(s, 0);
    if !(st < s.len() && s[st] == 123) {
        return None;
    }
    let j0 = scan_ws(s, st + 1);
    if j0 >= s.len() {
        return None;
    }
    let inner: Option<(MsgSlots, usize)> = if s[j0] == 125 {
        Some((MsgSlots { src: None, dest: None, body: None }, j0 + 1))
    } else {
        scan_msg_fields(s, j0, MsgSlots { src: None, dest: None, body: None })
    };
    match inner {
        None => None,
        Some((ms, j)) => {
            if scan_ws(s, j) != s.len() {
                return None;
            }
            match (ms.src, ms.dest, ms.body) {
                (Some(sv), Some(dv), Some(b)) => Some(Message { src: sv, dest: dv, body: b }),
                _ => None,
            }
        },
    }
}

} // verus!
