//! The round-trip law: decoding a canonically rendered envelope yields the
//! envelope back. This is proved by walking the parser through each field of
//! the rendering, using the inversion lemmas of the grammar's pieces.

use vstd::prelude::*;
use crate::json::{
    enc_string, parse_string, enc_opt_id, dec_digits, is_ws, skip_ws, lemma_parse_string,
    lemma_parse_opt_id, lemma_parse_i32, lemma_parse_dec, lemma_dec_digits,
};
use crate::jval::{
    enc_strs, enc_i32s, enc_topo, lemma_parse_strs, lemma_parse_i32s, lemma_parse_topo,
};
use crate::lit::{
    k_src, k_dest, k_body, k_msg_id, k_in_reply_to, k_type, k_echo, k_id, k_node_id, k_node_ids,
    k_message, k_messages, k_topology, k_delta, k_value, t_init, t_init_ok, t_echo, t_echo_ok,
    t_generate, t_generate_ok, t_broadcast, t_broadcast_ok, t_read, t_read_ok, t_topology,
    t_topology_ok, t_add, t_add_ok,
};
use crate::codec::{
    Slots, MSlots, empty_slots, empty_mslots, parse_field_value, parse_body_fields,
    assemble_payload, parse_body, parse_msg_field_value, parse_msg_fields, parse_message,
    spec_decode, tag_of, enc_payload_fields, enc_body_inner, enc_body, enc_message, parse_u32,
};
use crate::message::{MessageModel, BodyModel, PayloadModel};

verus! {

/// The slot state after the three fields every body shares.
pub open spec fn sl3(b: BodyModel) -> Slots {
    Slots {
        msg_id: b.msg_id,
        in_reply_to: b.in_reply_to,
        tag: Some(tag_of(b.payload)),
        ..empty_slots()
    }
}

/// The slot state after a whole canonical body.
pub open spec fn slots_of(b: BodyModel) -> Slots {
    match b.payload {
        PayloadModel::Init { node_id, node_ids } => Slots {
            node_id: Some(node_id),
            node_ids: Some(node_ids),
            ..sl3(b)
        },
        PayloadModel::Echo { echo } => Slots { echo: Some(echo), ..sl3(b) },
        PayloadModel::EchoOk { echo } => Slots { echo: Some(echo), ..sl3(b) },
        PayloadModel::GenerateOk { id } => Slots { id: Some(id), ..sl3(b) },
        PayloadModel::Broadcast { message } => Slots { message: Some(message), ..sl3(b) },
        PayloadModel::ReadOk { messages } => Slots { messages: Some(messages), ..sl3(b) },
        PayloadModel::ReadOkValue { value } => Slots { value: Some(value), ..sl3(b) },
        PayloadModel::Topology { topology } => Slots { topology: Some(topology), ..sl3(b) },
        PayloadModel::Add { delta } => Slots { delta: Some(delta), ..sl3(b) },
        _ => sl3(b),
    }
}

#[verifier::rlimit(100)]
#[verifier::spinoff_prover]
proof fn lemma_opt_len(o: Option<u64>)
    ensures
        enc_opt_id(o).len() >= 1,
        !is_ws(enc_opt_id(o)[0]),
{
    match o {
        Some(n) => {
            lemma_dec_digits(n as nat);
            assert(crate::json::is_digit(dec_digits(n as nat)[0]));
        },
        None => {
            assert(enc_opt_id(o)[0] == 110);
        },
    }
}


/// One `"key":value,` step of a body's field list.
#[verifier::rlimit(100)]
#[verifier::spinoff_prover]
proof fn lemma_mid_field(
    pre: Seq<u8>,
    sl: Slots,
    k: Seq<u8>,
    venc: Seq<u8>,
    sl2: Slots,
    rest2: Seq<u8>,
)
    requires
        venc.len() >= 1,
        !is_ws(venc[0]),
        rest2.len() >= 1,
        !is_ws(rest2[0]),
        parse_field_value(
            pre + enc_string(k) + seq![58u8] + venc + seq![44u8] + rest2,
            pre.len() + enc_string(k).len() + 1int,
            k,
            sl,
        ) == Some::<(Slots, int)>(
            (sl2, pre.len() + enc_string(k).len() + 1 + venc.len() as int),
        ),
    ensures
        parse_body_fields(
            pre + enc_string(k) + seq![58u8] + venc + seq![44u8] + rest2,
            pre.len() as int,
            sl,
        ) == parse_body_fields(
            pre + enc_string(k) + seq![58u8] + venc + seq![44u8] + rest2,
            pre.len() + enc_string(k).len() + 1 + venc.len() + 1int,
            sl2,
        ),
{
    let s = pre + enc_string(k) + seq![58u8] + venc + seq![44u8] + rest2;
    let r1 = seq![58u8] + venc + seq![44u8] + rest2;
    assert(s =~= pre + enc_string(k) + r1);
    lemma_parse_string(pre, k, r1);
    let j: int = pre.len() as int + enc_string(k).len() as int;
    assert(enc_string(k).len() >= 2);
    assert(parse_string(s, pre.len() as int) == Some::<(Seq<u8>, int)>((k, j)));
    assert(s[j] == 58) by {
        assert(r1[0] == 58);
    }
    let jv: int = j + 1 + venc.len() as int;
    assert(s[jv] == 44) by {
        assert(s =~= (pre + enc_string(k) + seq![58u8] + venc) + (seq![44u8] + rest2));
        assert((seq![44u8] + rest2)[0] == 44);
    }
    assert(s[jv + 1] == rest2[0]) by {
        assert(s =~= (pre + enc_string(k) + seq![58u8] + venc + seq![44u8]) + rest2);
    }
    assert(s[j + 1] == venc[0]) by {
        assert(s =~= (pre + enc_string(k) + seq![58u8]) + (venc + seq![44u8] + rest2));
        assert((venc + seq![44u8] + rest2)[0] == venc[0]);
    }
    assert(skip_ws(s, j) == j);
    assert(skip_ws(s, j + 1) == j + 1);
    assert(skip_ws(s, jv) == jv);
    assert(skip_ws(s, jv + 1) == jv + 1);
    assert(parse_body_fields(s, pre.len() as int, sl) == parse_body_fields(s, jv + 1, sl2));
}

/// The final `"key":value}` step of a body's field list.
#[verifier::rlimit(100)]
#[verifier::spinoff_prover]
proof fn lemma_last_field(
    pre: Seq<u8>,
    sl: Slots,
    k: Seq<u8>,
    venc: Seq<u8>,
    sl2: Slots,
    rest: Seq<u8>,
)
    requires
        venc.len() >= 1,
        !is_ws(venc[0]),
        parse_field_value(
            pre + enc_string(k) + seq![58u8] + venc + seq![125u8] + rest,
            pre.len() + enc_string(k).len() + 1int,
            k,
            sl,
        ) == Some::<(Slots, int)>(
            (sl2, pre.len() + enc_string(k).len() + 1 + venc.len() as int),
        ),
    ensures
        parse_body_fields(
            pre + enc_string(k) + seq![58u8] + venc + seq![125u8] + rest,
            pre.len() as int,
            sl,
        ) == Some::<(Slots, int)>(
            (sl2, pre.len() + enc_string(k).len() + 1 + venc.len() + 1int),
        ),
{
    let s = pre + enc_string(k) + seq![58u8] + venc + seq![125u8] + rest;
    let r1 = seq![58u8] + venc + seq![125u8] + rest;
    assert(s =~= pre + enc_string(k) + r1);
    lemma_parse_string(pre, k, r1);
    let j: int = pre.len() as int + enc_string(k).len() as int;
    assert(enc_string(k).len() >= 2);
    assert(parse_string(s, pre.len() as int) == Some::<(Seq<u8>, int)>((k, j)));
    assert(s[j] == 58) by {
        assert(r1[0] == 58);
    }
    let jv: int = j + 1 + venc.len() as int;
    assert(s[jv] == 125) by {
        assert(s =~= (pre + enc_string(k) + seq![58u8] + venc) + (seq![125u8] + rest));
        assert((seq![125u8] + rest)[0] == 125);
    }
    assert(s[j + 1] == venc[0]) by {
        assert(s =~= (pre + enc_string(k) + seq![58u8]) + (venc + seq![125u8] + rest));
        assert((venc + seq![125u8] + rest)[0] == venc[0]);
    }
    assert(skip_ws(s, j) == j);
    assert(skip_ws(s, j + 1) == j + 1);
    assert(skip_ws(s, jv) == jv);
    assert(parse_body_fields(s, pre.len() as int, sl) == Some::<(Slots, int)>((sl2, jv + 1)));
}

/// One `"key":value,` step of an envelope's field list.
#[verifier::rlimit(100)]
#[verifier::spinoff_prover]
proof fn lemma_msg_mid_field(
    pre: Seq<u8>,
    ms: MSlots,
    k: Seq<u8>,
    venc: Seq<u8>,
    ms2: MSlots,
    rest2: Seq<u8>,
)
    requires
        venc.len() >= 1,
        !is_ws(venc[0]),
        rest2.len() >= 1,
        !is_ws(rest2[0]),
        parse_msg_field_value(
            pre + enc_string(k) + seq![58u8] + venc + seq![44u8] + rest2,
            pre.len() + enc_string(k).len() + 1int,
            k,
            ms,
        ) == Some::<(MSlots, int)>(
            (ms2, pre.len() + enc_string(k).len() + 1 + venc.len() as int),
        ),
    ensures
        parse_msg_fields(
            pre + enc_string(k) + seq![58u8] + venc + seq![44u8] + rest2,
            pre.len() as int,
            ms,
        ) == parse_msg_fields(
            pre + enc_string(k) + seq![58u8] + venc + seq![44u8] + rest2,
            pre.len() + enc_string(k).len() + 1 + venc.len() + 1int,
            ms2,
        ),
{
    let s = pre + enc_string(k) + seq![58u8] + venc + seq![44u8] + rest2;
    let r1 = seq![58u8] + venc + seq![44u8] + rest2;
    assert(s =~= pre + enc_string(k) + r1);
    lemma_parse_string(pre, k, r1);
    let j: int = pre.len() as int + enc_string(k).len() as int;
    assert(enc_string(k).len() >= 2);
    assert(parse_string(s, pre.len() as int) == Some::<(Seq<u8>, int)>((k, j)));
    assert(s[j] == 58) by {
        assert(r1[0] == 58);
    }
    let jv: int = j + 1 + venc.len() as int;
    assert(s[jv] == 44) by {
        assert(s =~= (pre + enc_string(k) + seq![58u8] + venc) + (seq![44u8] + rest2));
        assert((seq![44u8] + rest2)[0] == 44);
    }
    assert(s[jv + 1] == rest2[0]) by {
        assert(s =~= (pre + enc_string(k) + seq![58u8] + venc + seq![44u8]) + rest2);
    }
    assert(s[j + 1] == venc[0]) by {
        assert(s =~= (pre + enc_string(k) + seq![58u8]) + (venc + seq![44u8] + rest2));
        assert((venc + seq![44u8] + rest2)[0] == venc[0]);
    }
    assert(skip_ws(s, j) == j);
    assert(skip_ws(s, j + 1) == j + 1);
    assert(skip_ws(s, jv) == jv);
    assert(skip_ws(s, jv + 1) == jv + 1);
    assert(parse_msg_fields(s, pre.len() as int, ms) == parse_msg_fields(s, jv + 1, ms2));
}

/// The final `"key":value}` step of an envelope's field list.
#[verifier::rlimit(100)]
#[verifier::spinoff_prover]
proof fn lemma_msg_last_field(
    pre: Seq<u8>,
    ms: MSlots,
    k: Seq<u8>,
    venc: Seq<u8>,
    ms2: MSlots,
    rest: Seq<u8>,
)
    requires
        venc.len() >= 1,
        !is_ws(venc[0]),
        parse_msg_field_value(
            pre + enc_string(k) + seq![58u8] + venc + seq![125u8] + rest,
            pre.len() + enc_string(k).len() + 1int,
            k,
            ms,
        ) == Some::<(MSlots, int)>(
            (ms2, pre.len() + enc_string(k).len() + 1 + venc.len() as int),
        ),
    ensures
        parse_msg_fields(
            pre + enc_string(k) + seq![58u8] + venc + seq![125u8] + rest,
            pre.len() as int,
            ms,
        ) == Some::<(MSlots, int)>(
            (ms2, pre.len() + enc_string(k).len() + 1 + venc.len() + 1int),
        ),
{
    let s = pre + enc_string(k) + seq![58u8] + venc + seq![125u8] + rest;
    let r1 = seq![58u8] + venc + seq![125u8] + rest;
    assert(s =~= pre + enc_string(k) + r1);
    lemma_parse_string(pre, k, r1);
    let j: int = pre.len() as int + enc_string(k).len() as int;
    assert(enc_string(k).len() >= 2);
    assert(parse_string(s, pre.len() as int) == Some::<(Seq<u8>, int)>((k, j)));
    assert(s[j] == 58) by {
        assert(r1[0] == 58);
    }
    let jv: int = j + 1 + venc.len() as int;
    assert(s[jv] == 125) by {
        assert(s =~= (pre + enc_string(k) + seq![58u8] + venc) + (seq![125u8] + rest));
        assert((seq![125u8] + rest)[0] == 125);
    }
    assert(s[j + 1] == venc[0]) by {
        assert(s =~= (pre + enc_string(k) + seq![58u8]) + (venc + seq![125u8] + rest));
        assert((venc + seq![125u8] + rest)[0] == venc[0]);
    }
    assert(skip_ws(s, j) == j);
    assert(skip_ws(s, j + 1) == j + 1);
    assert(skip_ws(s, jv) == jv);
    assert(parse_msg_fields(s, pre.len() as int, ms) == Some::<(MSlots, int)>((ms2, jv + 1)));
}

#[verifier::rlimit(100)]
#[verifier::spinoff_prover]
proof fn lemma_keys_distinct()
    ensures
        k_in_reply_to() != k_msg_id(),
        k_type() != k_msg_id(),
        k_type() != k_in_reply_to(),
        k_echo() != k_msg_id(),
        k_echo() != k_in_reply_to(),
        k_echo() != k_type(),
        k_id() != k_msg_id(),
        k_id() != k_in_reply_to(),
        k_id() != k_type(),
        k_id() != k_echo(),
        k_node_id() != k_msg_id(),
        k_node_id() != k_in_reply_to(),
        k_node_id() != k_type(),
        k_node_id() != k_echo(),
        k_node_id() != k_id(),
        k_node_ids() != k_msg_id(),
        k_node_ids() != k_in_reply_to(),
        k_node_ids() != k_type(),
        k_node_ids() != k_echo(),
        k_node_ids() != k_id(),
        k_node_ids() != k_node_id(),
        k_message() != k_msg_id(),
        k_message() != k_in_reply_to(),
        k_message() != k_type(),
        k_message() != k_echo(),
        k_message() != k_id(),
        k_message() != k_node_id(),
        k_message() != k_node_ids(),
        k_messages() != k_msg_id(),
        k_messages() != k_in_reply_to(),
        k_messages() != k_type(),
        k_messages() != k_echo(),
        k_messages() != k_id(),
        k_messages() != k_node_id(),
        k_messages() != k_node_ids(),
        k_messages() != k_message(),
        k_topology() != k_msg_id(),
        k_topology() != k_in_reply_to(),
        k_topology() != k_type(),
        k_topology() != k_echo(),
        k_topology() != k_id(),
        k_topology() != k_node_id(),
        k_topology() != k_node_ids(),
        k_topology() != k_message(),
        k_topology() != k_messages(),
        k_delta() != k_msg_id(),
        k_delta() != k_in_reply_to(),
        k_delta() != k_type(),
        k_delta() != k_echo(),
        k_delta() != k_id(),
        k_delta() != k_node_id(),
        k_delta() != k_node_ids(),
        k_delta() != k_message(),
        k_delta() != k_messages(),
        k_delta() != k_topology(),
        k_value() != k_msg_id(),
        k_value() != k_in_reply_to(),
        k_value() != k_type(),
        k_value() != k_echo(),
        k_value() != k_id(),
        k_value() != k_node_id(),
        k_value() != k_node_ids(),
        k_value() != k_message(),
        k_value() != k_messages(),
        k_value() != k_topology(),
        k_value() != k_delta(),
{
    assert(k_in_reply_to() != k_msg_id()) by {
        assert(k_in_reply_to().len() == 11);
        assert(k_msg_id().len() == 6);
    }
    assert(k_type() != k_msg_id()) by {
        assert(k_type().len() == 4);
        assert(k_msg_id().len() == 6);
    }
    assert(k_type() != k_in_reply_to()) by {
        assert(k_type().len() == 4);
        assert(k_in_reply_to().len() == 11);
    }
    assert(k_echo() != k_msg_id()) by {
        assert(k_echo().len() == 4);
        assert(k_msg_id().len() == 6);
    }
    assert(k_echo() != k_in_reply_to()) by {
        assert(k_echo().len() == 4);
        assert(k_in_reply_to().len() == 11);
    }
    assert(k_echo() != k_type()) by {
        assert(k_echo()[0] == 101);
        assert(k_type()[0] == 116);
    }
    assert(k_id() != k_msg_id()) by {
        assert(k_id().len() == 2);
        assert(k_msg_id().len() == 6);
    }
    assert(k_id() != k_in_reply_to()) by {
        assert(k_id().len() == 2);
        assert(k_in_reply_to().len() == 11);
    }
    assert(k_id() != k_type()) by {
        assert(k_id().len() == 2);
        assert(k_type().len() == 4);
    }
    assert(k_id() != k_echo()) by {
        assert(k_id().len() == 2);
        assert(k_echo().len() == 4);
    }
    assert(k_node_id() != k_msg_id()) by {
        assert(k_node_id().len() == 7);
        assert(k_msg_id().len() == 6);
    }
    assert(k_node_id() != k_in_reply_to()) by {
        assert(k_node_id().len() == 7);
        assert(k_in_reply_to().len() == 11);
    }
    assert(k_node_id() != k_type()) by {
        assert(k_node_id().len() == 7);
        assert(k_type().len() == 4);
    }
    assert(k_node_id() != k_echo()) by {
        assert(k_node_id().len() == 7);
        assert(k_echo().len() == 4);
    }
    assert(k_node_id() != k_id()) by {
        assert(k_node_id().len() == 7);
        assert(k_id().len() == 2);
    }
    assert(k_node_ids() != k_msg_id()) by {
        assert(k_node_ids().len() == 8);
        assert(k_msg_id().len() == 6);
    }
    assert(k_node_ids() != k_in_reply_to()) by {
        assert(k_node_ids().len() == 8);
        assert(k_in_reply_to().len() == 11);
    }
    assert(k_node_ids() != k_type()) by {
        assert(k_node_ids().len() == 8);
        assert(k_type().len() == 4);
    }
    assert(k_node_ids() != k_echo()) by {
        assert(k_node_ids().len() == 8);
        assert(k_echo().len() == 4);
    }
    assert(k_node_ids() != k_id()) by {
        assert(k_node_ids().len() == 8);
        assert(k_id().len() == 2);
    }
    assert(k_node_ids() != k_node_id()) by {
        assert(k_node_ids().len() == 8);
        assert(k_node_id().len() == 7);
    }
    assert(k_message() != k_msg_id()) by {
        assert(k_message().len() == 7);
        assert(k_msg_id().len() == 6);
    }
    assert(k_message() != k_in_reply_to()) by {
        assert(k_message().len() == 7);
        assert(k_in_reply_to().len() == 11);
    }
    assert(k_message() != k_type()) by {
        assert(k_message().len() == 7);
        assert(k_type().len() == 4);
    }
    assert(k_message() != k_echo()) by {
        assert(k_message().len() == 7);
        assert(k_echo().len() == 4);
    }
    assert(k_message() != k_id()) by {
        assert(k_message().len() == 7);
        assert(k_id().len() == 2);
    }
    assert(k_message() != k_node_id()) by {
        assert(k_message()[0] == 109);
        assert(k_node_id()[0] == 110);
    }
    assert(k_message() != k_node_ids()) by {
        assert(k_message().len() == 7);
        assert(k_node_ids().len() == 8);
    }
    assert(k_messages() != k_msg_id()) by {
        assert(k_messages().len() == 8);
        assert(k_msg_id().len() == 6);
    }
    assert(k_messages() != k_in_reply_to()) by {
        assert(k_messages().len() == 8);
        assert(k_in_reply_to().len() == 11);
    }
    assert(k_messages() != k_type()) by {
        assert(k_messages().len() == 8);
        assert(k_type().len() == 4);
    }
    assert(k_messages() != k_echo()) by {
        assert(k_messages().len() == 8);
        assert(k_echo().len() == 4);
    }
    assert(k_messages() != k_id()) by {
        assert(k_messages().len() == 8);
        assert(k_id().len() == 2);
    }
    assert(k_messages() != k_node_id()) by {
        assert(k_messages().len() == 8);
        assert(k_node_id().len() == 7);
    }
    assert(k_messages() != k_node_ids()) by {
        assert(k_messages()[0] == 109);
        assert(k_node_ids()[0] == 110);
    }
    assert(k_messages() != k_message()) by {
        assert(k_messages().len() == 8);
        assert(k_message().len() == 7);
    }
    assert(k_topology() != k_msg_id()) by {
        assert(k_topology().len() == 8);
        assert(k_msg_id().len() == 6);
    }
    assert(k_topology() != k_in_reply_to()) by {
        assert(k_topology().len() == 8);
        assert(k_in_reply_to().len() == 11);
    }
    assert(k_topology() != k_type()) by {
        assert(k_topology().len() == 8);
        assert(k_type().len() == 4);
    }
    assert(k_topology() != k_echo()) by {
        assert(k_topology().len() == 8);
        assert(k_echo().len() == 4);
    }
    assert(k_topology() != k_id()) by {
        assert(k_topology().len() == 8);
        assert(k_id().len() == 2);
    }
    assert(k_topology() != k_node_id()) by {
        assert(k_topology().len() == 8);
        assert(k_node_id().len() == 7);
    }
    assert(k_topology() != k_node_ids()) by {
        assert(k_topology()[0] == 116);
        assert(k_node_ids()[0] == 110);
    }
    assert(k_topology() != k_message()) by {
        assert(k_topology().len() == 8);
        assert(k_message().len() == 7);
    }
    assert(k_topology() != k_messages()) by {
        assert(k_topology()[0] == 116);
        assert(k_messages()[0] == 109);
    }
    assert(k_delta() != k_msg_id()) by {
        assert(k_delta().len() == 5);
        assert(k_msg_id().len() == 6);
    }
    assert(k_delta() != k_in_reply_to()) by {
        assert(k_delta().len() == 5);
        assert(k_in_reply_to().len() == 11);
    }
    assert(k_delta() != k_type()) by {
        assert(k_delta().len() == 5);
        assert(k_type().len() == 4);
    }
    assert(k_delta() != k_echo()) by {
        assert(k_delta().len() == 5);
        assert(k_echo().len() == 4);
    }
    assert(k_delta() != k_id()) by {
        assert(k_delta().len() == 5);
        assert(k_id().len() == 2);
    }
    assert(k_delta() != k_node_id()) by {
        assert(k_delta().len() == 5);
        assert(k_node_id().len() == 7);
    }
    assert(k_delta() != k_node_ids()) by {
        assert(k_delta().len() == 5);
        assert(k_node_ids().len() == 8);
    }
    assert(k_delta() != k_message()) by {
        assert(k_delta().len() == 5);
        assert(k_message().len() == 7);
    }
    assert(k_delta() != k_messages()) by {
        assert(k_delta().len() == 5);
        assert(k_messages().len() == 8);
    }
    assert(k_delta() != k_topology()) by {
        assert(k_delta().len() == 5);
        assert(k_topology().len() == 8);
    }
    assert(k_value() != k_msg_id()) by {
        assert(k_value().len() == 5);
        assert(k_msg_id().len() == 6);
    }
    assert(k_value() != k_in_reply_to()) by {
        assert(k_value().len() == 5);
        assert(k_in_reply_to().len() == 11);
    }
    assert(k_value() != k_type()) by {
        assert(k_value().len() == 5);
        assert(k_type().len() == 4);
    }
    assert(k_value() != k_echo()) by {
        assert(k_value().len() == 5);
        assert(k_echo().len() == 4);
    }
    assert(k_value() != k_id()) by {
        assert(k_value().len() == 5);
        assert(k_id().len() == 2);
    }
    assert(k_value() != k_node_id()) by {
        assert(k_value().len() == 5);
        assert(k_node_id().len() == 7);
    }
    assert(k_value() != k_node_ids()) by {
        assert(k_value().len() == 5);
        assert(k_node_ids().len() == 8);
    }
    assert(k_value() != k_message()) by {
        assert(k_value().len() == 5);
        assert(k_message().len() == 7);
    }
    assert(k_value() != k_messages()) by {
        assert(k_value().len() == 5);
        assert(k_messages().len() == 8);
    }
    assert(k_value() != k_topology()) by {
        assert(k_value().len() == 5);
        assert(k_topology().len() == 8);
    }
    assert(k_value() != k_delta()) by {
        assert(k_value()[0] == 118);
        assert(k_delta()[0] == 100);
    }
}

#[verifier::rlimit(100)]
#[verifier::spinoff_prover]
proof fn lemma_tags_distinct()
    ensures
        t_init_ok() != t_init(),
        t_echo() != t_init(),
        t_echo() != t_init_ok(),
        t_echo_ok() != t_init(),
        t_echo_ok() != t_init_ok(),
        t_echo_ok() != t_echo(),
        t_generate() != t_init(),
        t_generate() != t_init_ok(),
        t_generate() != t_echo(),
        t_generate() != t_echo_ok(),
        t_generate_ok() != t_init(),
        t_generate_ok() != t_init_ok(),
        t_generate_ok() != t_echo(),
        t_generate_ok() != t_echo_ok(),
        t_generate_ok() != t_generate(),
        t_broadcast() != t_init(),
        t_broadcast() != t_init_ok(),
        t_broadcast() != t_echo(),
        t_broadcast() != t_echo_ok(),
        t_broadcast() != t_generate(),
        t_broadcast() != t_generate_ok(),
        t_broadcast_ok() != t_init(),
        t_broadcast_ok() != t_init_ok(),
        t_broadcast_ok() != t_echo(),
        t_broadcast_ok() != t_echo_ok(),
        t_broadcast_ok() != t_generate(),
        t_broadcast_ok() != t_generate_ok(),
        t_broadcast_ok() != t_broadcast(),
        t_read() != t_init(),
        t_read() != t_init_ok(),
        t_read() != t_echo(),
        t_read() != t_echo_ok(),
        t_read() != t_generate(),
        t_read() != t_generate_ok(),
        t_read() != t_broadcast(),
        t_read() != t_broadcast_ok(),
        t_read_ok() != t_init(),
        t_read_ok() != t_init_ok(),
        t_read_ok() != t_echo(),
        t_read_ok() != t_echo_ok(),
        t_read_ok() != t_generate(),
        t_read_ok() != t_generate_ok(),
        t_read_ok() != t_broadcast(),
        t_read_ok() != t_broadcast_ok(),
        t_read_ok() != t_read(),
        t_topology() != t_init(),
        t_topology() != t_init_ok(),
        t_topology() != t_echo(),
        t_topology() != t_echo_ok(),
        t_topology() != t_generate(),
        t_topology() != t_generate_ok(),
        t_topology() != t_broadcast(),
        t_topology() != t_broadcast_ok(),
        t_topology() != t_read(),
        t_topology() != t_read_ok(),
        t_topology_ok() != t_init(),
        t_topology_ok() != t_init_ok(),
        t_topology_ok() != t_echo(),
        t_topology_ok() != t_echo_ok(),
        t_topology_ok() != t_generate(),
        t_topology_ok() != t_generate_ok(),
        t_topology_ok() != t_broadcast(),
        t_topology_ok() != t_broadcast_ok(),
        t_topology_ok() != t_read(),
        t_topology_ok() != t_read_ok(),
        t_topology_ok() != t_topology(),
        t_add() != t_init(),
        t_add() != t_init_ok(),
        t_add() != t_echo(),
        t_add() != t_echo_ok(),
        t_add() != t_generate(),
        t_add() != t_generate_ok(),
        t_add() != t_broadcast(),
        t_add() != t_broadcast_ok(),
        t_add() != t_read(),
        t_add() != t_read_ok(),
        t_add() != t_topology(),
        t_add() != t_topology_ok(),
        t_add_ok() != t_init(),
        t_add_ok() != t_init_ok(),
        t_add_ok() != t_echo(),
        t_add_ok() != t_echo_ok(),
        t_add_ok() != t_generate(),
        t_add_ok() != t_generate_ok(),
        t_add_ok() != t_broadcast(),
        t_add_ok() != t_broadcast_ok(),
        t_add_ok() != t_read(),
        t_add_ok() != t_read_ok(),
        t_add_ok() != t_topology(),
        t_add_ok() != t_topology_ok(),
        t_add_ok() != t_add(),
{
    assert(t_init_ok() != t_init()) by {
        assert(t_init_ok().len() == 7);
        assert(t_init().len() == 4);
    }
    assert(t_echo() != t_init()) by {
        assert(t_echo()[0] == 101);
        assert(t_init()[0] == 105);
    }
    assert(t_echo() != t_init_ok()) by {
        assert(t_echo().len() == 4);
        assert(t_init_ok().len() == 7);
    }
    assert(t_echo_ok() != t_init()) by {
        assert(t_echo_ok().len() == 7);
        assert(t_init().len() == 4);
    }
    assert(t_echo_ok() != t_init_ok()) by {
        assert(t_echo_ok()[0] == 101);
        assert(t_init_ok()[0] == 105);
    }
    assert(t_echo_ok() != t_echo()) by {
        assert(t_echo_ok().len() == 7);
        assert(t_echo().len() == 4);
    }
    assert(t_generate() != t_init()) by {
        assert(t_generate().len() == 8);
        assert(t_init().len() == 4);
    }
    assert(t_generate() != t_init_ok()) by {
        assert(t_generate().len() == 8);
        assert(t_init_ok().len() == 7);
    }
    assert(t_generate() != t_echo()) by {
        assert(t_generate().len() == 8);
        assert(t_echo().len() == 4);
    }
    assert(t_generate() != t_echo_ok()) by {
        assert(t_generate().len() == 8);
        assert(t_echo_ok().len() == 7);
    }
    assert(t_generate_ok() != t_init()) by {
        assert(t_generate_ok().len() == 11);
        assert(t_init().len() == 4);
    }
    assert(t_generate_ok() != t_init_ok()) by {
        assert(t_generate_ok().len() == 11);
        assert(t_init_ok().len() == 7);
    }
    assert(t_generate_ok() != t_echo()) by {
        assert(t_generate_ok().len() == 11);
        assert(t_echo().len() == 4);
    }
    assert(t_generate_ok() != t_echo_ok()) by {
        assert(t_generate_ok().len() == 11);
        assert(t_echo_ok().len() == 7);
    }
    assert(t_generate_ok() != t_generate()) by {
        assert(t_generate_ok().len() == 11);
        assert(t_generate().len() == 8);
    }
    assert(t_broadcast() != t_init()) by {
        assert(t_broadcast().len() == 9);
        assert(t_init().len() == 4);
    }
    assert(t_broadcast() != t_init_ok()) by {
        assert(t_broadcast().len() == 9);
        assert(t_init_ok().len() == 7);
    }
    assert(t_broadcast() != t_echo()) by {
        assert(t_broadcast().len() == 9);
        assert(t_echo().len() == 4);
    }
    assert(t_broadcast() != t_echo_ok()) by {
        assert(t_broadcast().len() == 9);
        assert(t_echo_ok().len() == 7);
    }
    assert(t_broadcast() != t_generate()) by {
        assert(t_broadcast().len() == 9);
        assert(t_generate().len() == 8);
    }
    assert(t_broadcast() != t_generate_ok()) by {
        assert(t_broadcast().len() == 9);
        assert(t_generate_ok().len() == 11);
    }
    assert(t_broadcast_ok() != t_init()) by {
        assert(t_broadcast_ok().len() == 12);
        assert(t_init().len() == 4);
    }
    assert(t_broadcast_ok() != t_init_ok()) by {
        assert(t_broadcast_ok().len() == 12);
        assert(t_init_ok().len() == 7);
    }
    assert(t_broadcast_ok() != t_echo()) by {
        assert(t_broadcast_ok().len() == 12);
        assert(t_echo().len() == 4);
    }
    assert(t_broadcast_ok() != t_echo_ok()) by {
        assert(t_broadcast_ok().len() == 12);
        assert(t_echo_ok().len() == 7);
    }
    assert(t_broadcast_ok() != t_generate()) by {
        assert(t_broadcast_ok().len() == 12);
        assert(t_generate().len() == 8);
    }
    assert(t_broadcast_ok() != t_generate_ok()) by {
        assert(t_broadcast_ok().len() == 12);
        assert(t_generate_ok().len() == 11);
    }
    assert(t_broadcast_ok() != t_broadcast()) by {
        assert(t_broadcast_ok().len() == 12);
        assert(t_broadcast().len() == 9);
    }
    assert(t_read() != t_init()) by {
        assert(t_read()[0] == 114);
        assert(t_init()[0] == 105);
    }
    assert(t_read() != t_init_ok()) by {
        assert(t_read().len() == 4);
        assert(t_init_ok().len() == 7);
    }
    assert(t_read() != t_echo()) by {
        assert(t_read()[0] == 114);
        assert(t_echo()[0] == 101);
    }
    assert(t_read() != t_echo_ok()) by {
        assert(t_read().len() == 4);
        assert(t_echo_ok().len() == 7);
    }
    assert(t_read() != t_generate()) by {
        assert(t_read().len() == 4);
        assert(t_generate().len() == 8);
    }
    assert(t_read() != t_generate_ok()) by {
        assert(t_read().len() == 4);
        assert(t_generate_ok().len() == 11);
    }
    assert(t_read() != t_broadcast()) by {
        assert(t_read().len() == 4);
        assert(t_broadcast().len() == 9);
    }
    assert(t_read() != t_broadcast_ok()) by {
        assert(t_read().len() == 4);
        assert(t_broadcast_ok().len() == 12);
    }
    assert(t_read_ok() != t_init()) by {
        assert(t_read_ok().len() == 7);
        assert(t_init().len() == 4);
    }
    assert(t_read_ok() != t_init_ok()) by {
        assert(t_read_ok()[0] == 114);
        assert(t_init_ok()[0] == 105);
    }
    assert(t_read_ok() != t_echo()) by {
        assert(t_read_ok().len() == 7);
        assert(t_echo().len() == 4);
    }
    assert(t_read_ok() != t_echo_ok()) by {
        assert(t_read_ok()[0] == 114);
        assert(t_echo_ok()[0] == 101);
    }
    assert(t_read_ok() != t_generate()) by {
        assert(t_read_ok().len() == 7);
        assert(t_generate().len() == 8);
    }
    assert(t_read_ok() != t_generate_ok()) by {
        assert(t_read_ok().len() == 7);
        assert(t_generate_ok().len() == 11);
    }
    assert(t_read_ok() != t_broadcast()) by {
        assert(t_read_ok().len() == 7);
        assert(t_broadcast().len() == 9);
    }
    assert(t_read_ok() != t_broadcast_ok()) by {
        assert(t_read_ok().len() == 7);
        assert(t_broadcast_ok().len() == 12);
    }
    assert(t_read_ok() != t_read()) by {
        assert(t_read_ok().len() == 7);
        assert(t_read().len() == 4);
    }
    assert(t_topology() != t_init()) by {
        assert(t_topology().len() == 8);
        assert(t_init().len() == 4);
    }
    assert(t_topology() != t_init_ok()) by {
        assert(t_topology().len() == 8);
        assert(t_init_ok().len() == 7);
    }
    assert(t_topology() != t_echo()) by {
        assert(t_topology().len() == 8);
        assert(t_echo().len() == 4);
    }
    assert(t_topology() != t_echo_ok()) by {
        assert(t_topology().len() == 8);
        assert(t_echo_ok().len() == 7);
    }
    assert(t_topology() != t_generate()) by {
        assert(t_topology()[0] == 116);
        assert(t_generate()[0] == 103);
    }
    assert(t_topology() != t_generate_ok()) by {
        assert(t_topology().len() == 8);
        assert(t_generate_ok().len() == 11);
    }
    assert(t_topology() != t_broadcast()) by {
        assert(t_topology().len() == 8);
        assert(t_broadcast().len() == 9);
    }
    assert(t_topology() != t_broadcast_ok()) by {
        assert(t_topology().len() == 8);
        assert(t_broadcast_ok().len() == 12);
    }
    assert(t_topology() != t_read()) by {
        assert(t_topology().len() == 8);
        assert(t_read().len() == 4);
    }
    assert(t_topology() != t_read_ok()) by {
        assert(t_topology().len() == 8);
        assert(t_read_ok().len() == 7);
    }
    assert(t_topology_ok() != t_init()) by {
        assert(t_topology_ok().len() == 11);
        assert(t_init().len() == 4);
    }
    assert(t_topology_ok() != t_init_ok()) by {
        assert(t_topology_ok().len() == 11);
        assert(t_init_ok().len() == 7);
    }
    assert(t_topology_ok() != t_echo()) by {
        assert(t_topology_ok().len() == 11);
        assert(t_echo().len() == 4);
    }
    assert(t_topology_ok() != t_echo_ok()) by {
        assert(t_topology_ok().len() == 11);
        assert(t_echo_ok().len() == 7);
    }
    assert(t_topology_ok() != t_generate()) by {
        assert(t_topology_ok().len() == 11);
        assert(t_generate().len() == 8);
    }
    assert(t_topology_ok() != t_generate_ok()) by {
        assert(t_topology_ok()[0] == 116);
        assert(t_generate_ok()[0] == 103);
    }
    assert(t_topology_ok() != t_broadcast()) by {
        assert(t_topology_ok().len() == 11);
        assert(t_broadcast().len() == 9);
    }
    assert(t_topology_ok() != t_broadcast_ok()) by {
        assert(t_topology_ok().len() == 11);
        assert(t_broadcast_ok().len() == 12);
    }
    assert(t_topology_ok() != t_read()) by {
        assert(t_topology_ok().len() == 11);
        assert(t_read().len() == 4);
    }
    assert(t_topology_ok() != t_read_ok()) by {
        assert(t_topology_ok().len() == 11);
        assert(t_read_ok().len() == 7);
    }
    assert(t_topology_ok() != t_topology()) by {
        assert(t_topology_ok().len() == 11);
        assert(t_topology().len() == 8);
    }
    assert(t_add() != t_init()) by {
        assert(t_add().len() == 3);
        assert(t_init().len() == 4);
    }
    assert(t_add() != t_init_ok()) by {
        assert(t_add().len() == 3);
        assert(t_init_ok().len() == 7);
    }
    assert(t_add() != t_echo()) by {
        assert(t_add().len() == 3);
        assert(t_echo().len() == 4);
    }
    assert(t_add() != t_echo_ok()) by {
        assert(t_add().len() == 3);
        assert(t_echo_ok().len() == 7);
    }
    assert(t_add() != t_generate()) by {
        assert(t_add().len() == 3);
        assert(t_generate().len() == 8);
    }
    assert(t_add() != t_generate_ok()) by {
        assert(t_add().len() == 3);
        assert(t_generate_ok().len() == 11);
    }
    assert(t_add() != t_broadcast()) by {
        assert(t_add().len() == 3);
        assert(t_broadcast().len() == 9);
    }
    assert(t_add() != t_broadcast_ok()) by {
        assert(t_add().len() == 3);
        assert(t_broadcast_ok().len() == 12);
    }
    assert(t_add() != t_read()) by {
        assert(t_add().len() == 3);
        assert(t_read().len() == 4);
    }
    assert(t_add() != t_read_ok()) by {
        assert(t_add().len() == 3);
        assert(t_read_ok().len() == 7);
    }
    assert(t_add() != t_topology()) by {
        assert(t_add().len() == 3);
        assert(t_topology().len() == 8);
    }
    assert(t_add() != t_topology_ok()) by {
        assert(t_add().len() == 3);
        assert(t_topology_ok().len() == 11);
    }
    assert(t_add_ok() != t_init()) by {
        assert(t_add_ok().len() == 6);
        assert(t_init().len() == 4);
    }
    assert(t_add_ok() != t_init_ok()) by {
        assert(t_add_ok().len() == 6);
        assert(t_init_ok().len() == 7);
    }
    assert(t_add_ok() != t_echo()) by {
        assert(t_add_ok().len() == 6);
        assert(t_echo().len() == 4);
    }
    assert(t_add_ok() != t_echo_ok()) by {
        assert(t_add_ok().len() == 6);
        assert(t_echo_ok().len() == 7);
    }
    assert(t_add_ok() != t_generate()) by {
        assert(t_add_ok().len() == 6);
        assert(t_generate().len() == 8);
    }
    assert(t_add_ok() != t_generate_ok()) by {
        assert(t_add_ok().len() == 6);
        assert(t_generate_ok().len() == 11);
    }
    assert(t_add_ok() != t_broadcast()) by {
        assert(t_add_ok().len() == 6);
        assert(t_broadcast().len() == 9);
    }
    assert(t_add_ok() != t_broadcast_ok()) by {
        assert(t_add_ok().len() == 6);
        assert(t_broadcast_ok().len() == 12);
    }
    assert(t_add_ok() != t_read()) by {
        assert(t_add_ok().len() == 6);
        assert(t_read().len() == 4);
    }
    assert(t_add_ok() != t_read_ok()) by {
        assert(t_add_ok().len() == 6);
        assert(t_read_ok().len() == 7);
    }
    assert(t_add_ok() != t_topology()) by {
        assert(t_add_ok().len() == 6);
        assert(t_topology().len() == 8);
    }
    assert(t_add_ok() != t_topology_ok()) by {
        assert(t_add_ok().len() == 6);
        assert(t_topology_ok().len() == 11);
    }
    assert(t_add_ok() != t_add()) by {
        assert(t_add_ok().len() == 6);
        assert(t_add().len() == 3);
    }
}


/// The three fields every canonical body starts with, tag included.
pub open spec fn enc_prefix3(b: BodyModel) -> Seq<u8> {
    enc_string(k_msg_id()) + seq![58u8] + enc_opt_id(b.msg_id) + seq![44u8] + enc_string(
        k_in_reply_to(),
    ) + seq![58u8] + enc_opt_id(b.in_reply_to) + seq![44u8] + enc_string(k_type()) + seq![58u8]
        + enc_string(tag_of(b.payload))
}

#[verifier::rlimit(100)]
#[verifier::spinoff_prover]
proof fn lemma_pf_head(p: PayloadModel)
    ensures
        enc_payload_fields(p).len() == 0 || (enc_payload_fields(p).len() >= 2
            && enc_payload_fields(p)[0] == 44 && enc_payload_fields(p)[1] == 34),
{
    match p {
        PayloadModel::Init { node_id, node_ids } => {
            assert(enc_payload_fields(p)[0] == 44);
            assert(enc_payload_fields(p)[1] == 34);
        },
        PayloadModel::Echo { echo } => {
            assert(enc_payload_fields(p)[0] == 44);
            assert(enc_payload_fields(p)[1] == 34);
        },
        PayloadModel::EchoOk { echo } => {
            assert(enc_payload_fields(p)[0] == 44);
            assert(enc_payload_fields(p)[1] == 34);
        },
        PayloadModel::GenerateOk { id } => {
            assert(enc_payload_fields(p)[0] == 44);
            assert(enc_payload_fields(p)[1] == 34);
        },
        PayloadModel::Broadcast { message } => {
            assert(enc_payload_fields(p)[0] == 44);
            assert(enc_payload_fields(p)[1] == 34);
        },
        PayloadModel::ReadOk { messages } => {
            assert(enc_payload_fields(p)[0] == 44);
            assert(enc_payload_fields(p)[1] == 34);
        },
        PayloadModel::ReadOkValue { value } => {
            assert(enc_payload_fields(p)[0] == 44);
            assert(enc_payload_fields(p)[1] == 34);
        },
        PayloadModel::Topology { topology } => {
            assert(enc_payload_fields(p)[0] == 44);
            assert(enc_payload_fields(p)[1] == 34);
        },
        PayloadModel::Add { delta } => {
            assert(enc_payload_fields(p)[0] == 44);
            assert(enc_payload_fields(p)[1] == 34);
        },
        _ => {},
    }
}

/// Slot state after the first shared field.
pub open spec fn sl_a(b: BodyModel) -> Slots {
    Slots { msg_id: b.msg_id, ..empty_slots() }
}

/// Slot state after the second shared field.
pub open spec fn sl_b(b: BodyModel) -> Slots {
    Slots { in_reply_to: b.in_reply_to, ..sl_a(b) }
}

/// Position after the first shared field, relative to the body's start.
pub open spec fn ofs1(b: BodyModel) -> int {
    enc_string(k_msg_id()).len() + 1int + enc_opt_id(b.msg_id).len() + 1
}

/// Position after the second shared field, relative to the body's start.
pub open spec fn ofs2(b: BodyModel) -> int {
    ofs1(b) + enc_string(k_in_reply_to()).len() + 1int + enc_opt_id(b.in_reply_to).len() + 1
}

#[verifier::rlimit(100)]
#[verifier::spinoff_prover]
proof fn lemma_bf_step1(pre: Seq<u8>, b: BodyModel, rest: Seq<u8>)
    ensures
        parse_body_fields(
            pre + enc_body_inner(b) + seq![125u8] + rest,
            pre.len() as int,
            empty_slots(),
        ) == parse_body_fields(
            pre + enc_body_inner(b) + seq![125u8] + rest,
            pre.len() + ofs1(b),
            sl_a(b),
        ),
{
    let p = b.payload;
    let tagseq = tag_of(p);
    let pf = enc_payload_fields(p);
    let s = pre + enc_body_inner(b) + seq![125u8] + rest;
    lemma_keys_distinct();
    lemma_opt_len(b.msg_id);
    let venc1 = enc_opt_id(b.msg_id);
    let rest2_1 = enc_string(k_in_reply_to()) + seq![58u8] + enc_opt_id(b.in_reply_to)
        + seq![44u8] + enc_string(k_type()) + seq![58u8] + enc_string(tagseq) + pf + seq![125u8]
        + rest;
    let s1 = pre + enc_string(k_msg_id()) + seq![58u8] + venc1 + seq![44u8] + rest2_1;
    assert(s =~= s1);
    let pv1 = pre + enc_string(k_msg_id()) + seq![58u8];
    assert(s1 =~= pv1 + venc1 + (seq![44u8] + rest2_1));
    lemma_parse_opt_id(pv1, b.msg_id, seq![44u8] + rest2_1);
    let v1: int = pre.len() as int + enc_string(k_msg_id()).len() as int + 1;
    assert(parse_field_value(s1, v1, k_msg_id(), empty_slots()) == Some::<(Slots, int)>(
        (sl_a(b), v1 + venc1.len()),
    ));
    assert(rest2_1[0] == 34) by {
        assert(enc_string(k_in_reply_to())[0] == 34);
    }
    lemma_mid_field(pre, empty_slots(), k_msg_id(), venc1, sl_a(b), rest2_1);
    assert(v1 + venc1.len() + 1 == pre.len() + ofs1(b));
}

#[verifier::rlimit(100)]
#[verifier::spinoff_prover]
proof fn lemma_bf_step2(pre: Seq<u8>, b: BodyModel, rest: Seq<u8>)
    ensures
        parse_body_fields(
            pre + enc_body_inner(b) + seq![125u8] + rest,
            pre.len() + ofs1(b),
            sl_a(b),
        ) == parse_body_fields(
            pre + enc_body_inner(b) + seq![125u8] + rest,
            pre.len() + ofs2(b),
            sl_b(b),
        ),
{
    let p = b.payload;
    let tagseq = tag_of(p);
    let pf = enc_payload_fields(p);
    let s = pre + enc_body_inner(b) + seq![125u8] + rest;
    lemma_keys_distinct();
    lemma_opt_len(b.in_reply_to);
    let pre2 = pre + enc_string(k_msg_id()) + seq![58u8] + enc_opt_id(b.msg_id) + seq![44u8];
    assert(pre2.len() == pre.len() + ofs1(b));
    let venc2 = enc_opt_id(b.in_reply_to);
    let rest2_2 = enc_string(k_type()) + seq![58u8] + enc_string(tagseq) + pf + seq![125u8]
        + rest;
    let s2 = pre2 + enc_string(k_in_reply_to()) + seq![58u8] + venc2 + seq![44u8] + rest2_2;
    assert(s =~= s2);
    let pv2 = pre2 + enc_string(k_in_reply_to()) + seq![58u8];
    assert(s2 =~= pv2 + venc2 + (seq![44u8] + rest2_2));
    lemma_parse_opt_id(pv2, b.in_reply_to, seq![44u8] + rest2_2);
    let v2: int = pre2.len() as int + enc_string(k_in_reply_to()).len() as int + 1;
    assert(parse_field_value(s2, v2, k_in_reply_to(), sl_a(b)) == Some::<(Slots, int)>(
        (sl_b(b), v2 + venc2.len()),
    ));
    assert(rest2_2[0] == 34) by {
        assert(enc_string(k_type())[0] == 34);
    }
    lemma_mid_field(pre2, sl_a(b), k_in_reply_to(), venc2, sl_b(b), rest2_2);
    assert(v2 + venc2.len() + 1 == pre.len() + ofs2(b));
}

#[verifier::rlimit(100)]
#[verifier::spinoff_prover]
proof fn lemma_bf_step3(pre: Seq<u8>, b: BodyModel, rest: Seq<u8>)
    ensures
        enc_payload_fields(b.payload).len() == 0 ==> parse_body_fields(
            pre + enc_body_inner(b) + seq![125u8] + rest,
            pre.len() + ofs2(b),
            sl_b(b),
        ) == Some::<(Slots, int)>((sl3(b), pre.len() + enc_body_inner(b).len() + 1int)),
        enc_payload_fields(b.payload).len() > 0 ==> parse_body_fields(
            pre + enc_body_inner(b) + seq![125u8] + rest,
            pre.len() + ofs2(b),
            sl_b(b),
        ) == parse_body_fields(
            pre + enc_body_inner(b) + seq![125u8] + rest,
            pre.len() + enc_prefix3(b).len() + 1int,
            sl3(b),
        ),
{
    let p = b.payload;
    let tagseq = tag_of(p);
    let pf = enc_payload_fields(p);
    let s = pre + enc_body_inner(b) + seq![125u8] + rest;
    lemma_keys_distinct();
    lemma_pf_head(p);
    let pre3 = pre + enc_string(k_msg_id()) + seq![58u8] + enc_opt_id(b.msg_id) + seq![44u8]
        + enc_string(k_in_reply_to()) + seq![58u8] + enc_opt_id(b.in_reply_to) + seq![44u8];
    assert(pre3.len() == pre.len() + ofs2(b));
    let venc3 = enc_string(tagseq);
    let pv3 = pre3 + enc_string(k_type()) + seq![58u8];
    let v3: int = pre3.len() as int + enc_string(k_type()).len() as int + 1;
    let slc = sl3(b);
    let tagend: int = v3 + venc3.len() as int;
    assert(tagend == pre.len() + enc_prefix3(b).len());
    if pf.len() == 0 {
        let s3 = pre3 + enc_string(k_type()) + seq![58u8] + venc3 + seq![125u8] + rest;
        assert(s =~= s3);
        assert(s3 =~= pv3 + venc3 + (seq![125u8] + rest));
        lemma_parse_string(pv3, tagseq, seq![125u8] + rest);
        assert(parse_field_value(s3, v3, k_type(), sl_b(b)) == Some::<(Slots, int)>(
            (slc, tagend),
        ));
        assert(venc3[0] == 34);
        lemma_last_field(pre3, sl_b(b), k_type(), venc3, slc, rest);
        assert(tagend + 1 == pre.len() + enc_body_inner(b).len() + 1);
    } else {
        assert(pf =~= seq![44u8] + pf.drop_first());
        let rest2_3 = pf.drop_first() + seq![125u8] + rest;
        let s3 = pre3 + enc_string(k_type()) + seq![58u8] + venc3 + seq![44u8] + rest2_3;
        assert(s =~= s3);
        assert(s3 =~= pv3 + venc3 + (seq![44u8] + rest2_3));
        lemma_parse_string(pv3, tagseq, seq![44u8] + rest2_3);
        assert(parse_field_value(s3, v3, k_type(), sl_b(b)) == Some::<(Slots, int)>(
            (slc, tagend),
        ));
        assert(venc3[0] == 34);
        assert(rest2_3[0] == 34) by {
            assert(rest2_3[0] == pf.drop_first()[0]);
            assert(pf.drop_first()[0] == pf[1]);
        }
        lemma_mid_field(pre3, sl_b(b), k_type(), venc3, slc, rest2_3);
    }
}

/// Walking the parser through a body's three shared fields.
#[verifier::rlimit(100)]
#[verifier::spinoff_prover]
proof fn lemma_body_prefix(pre: Seq<u8>, b: BodyModel, rest: Seq<u8>)
    ensures
        enc_payload_fields(b.payload).len() == 0 ==> parse_body_fields(
            pre + enc_body_inner(b) + seq![125u8] + rest,
            pre.len() as int,
            empty_slots(),
        ) == Some::<(Slots, int)>((sl3(b), pre.len() + enc_body_inner(b).len() + 1int)),
        enc_payload_fields(b.payload).len() > 0 ==> parse_body_fields(
            pre + enc_body_inner(b) + seq![125u8] + rest,
            pre.len() as int,
            empty_slots(),
        ) == parse_body_fields(
            pre + enc_body_inner(b) + seq![125u8] + rest,
            pre.len() + enc_prefix3(b).len() + 1int,
            sl3(b),
        ),
{
    lemma_bf_step1(pre, b, rest);
    lemma_bf_step2(pre, b, rest);
    lemma_bf_step3(pre, b, rest);
}

#[verifier::rlimit(100)]
#[verifier::spinoff_prover]
proof fn lemma_bf_echo(pre: Seq<u8>, b: BodyModel, rest: Seq<u8>, e: Seq<u8>)
    requires
        b.payload == (PayloadModel::Echo { echo: e }),
    ensures
        parse_body_fields(
            pre + enc_body_inner(b) + seq![125u8] + rest,
            pre.len() + enc_prefix3(b).len() + 1int,
            sl3(b),
        ) == Some::<(Slots, int)>((slots_of(b), pre.len() + enc_body_inner(b).len() + 1int)),
{
    let p = b.payload;
    let pf = enc_payload_fields(p);
    let s = pre + enc_body_inner(b) + seq![125u8] + rest;
    let slc = sl3(b);
    let tagend: int = pre.len() as int + enc_prefix3(b).len() as int;
    lemma_keys_distinct();
    assert(enc_body_inner(b) =~= enc_prefix3(b) + pf);
    let k4 = k_echo();
    let venc4 = enc_string(e);
    let pre4 = pre + enc_prefix3(b) + seq![44u8];
    assert(pre4.len() == tagend + 1);
    let s4 = pre4 + enc_string(k4) + seq![58u8] + venc4 + seq![125u8] + rest;
    assert(s =~= s4);
    let pv4 = pre4 + enc_string(k4) + seq![58u8];
    assert(s4 =~= pv4 + venc4 + (seq![125u8] + rest));
    lemma_parse_string(pv4, e, seq![125u8] + rest);
    let v4: int = tagend + 1 + enc_string(k4).len() as int + 1;
    let sld = Slots { echo: Some(e), ..slc };
    assert(parse_field_value(s4, v4, k4, slc) == Some::<(Slots, int)>((sld, v4 + venc4.len())));
    assert(venc4[0] == 34);
    lemma_last_field(pre4, slc, k4, venc4, sld, rest);
    assert(parse_body_fields(s, tagend + 1, slc) == Some::<(Slots, int)>(
        (sld, v4 + venc4.len() + 1),
    ));
    assert(sld == slots_of(b));
    assert(v4 + venc4.len() + 1 == pre.len() + enc_body_inner(b).len() + 1);
}

#[verifier::rlimit(100)]
#[verifier::spinoff_prover]
proof fn lemma_bf_echo_ok(pre: Seq<u8>, b: BodyModel, rest: Seq<u8>, e: Seq<u8>)
    requires
        b.payload == (PayloadModel::EchoOk { echo: e }),
    ensures
        parse_body_fields(
            pre + enc_body_inner(b) + seq![125u8] + rest,
            pre.len() + enc_prefix3(b).len() + 1int,
            sl3(b),
        ) == Some::<(Slots, int)>((slots_of(b), pre.len() + enc_body_inner(b).len() + 1int)),
{
    let p = b.payload;
    let pf = enc_payload_fields(p);
    let s = pre + enc_body_inner(b) + seq![125u8] + rest;
    let slc = sl3(b);
    let tagend: int = pre.len() as int + enc_prefix3(b).len() as int;
    lemma_keys_distinct();
    assert(enc_body_inner(b) =~= enc_prefix3(b) + pf);
    let k4 = k_echo();
    let venc4 = enc_string(e);
    let pre4 = pre + enc_prefix3(b) + seq![44u8];
    assert(pre4.len() == tagend + 1);
    let s4 = pre4 + enc_string(k4) + seq![58u8] + venc4 + seq![125u8] + rest;
    assert(s =~= s4);
    let pv4 = pre4 + enc_string(k4) + seq![58u8];
    assert(s4 =~= pv4 + venc4 + (seq![125u8] + rest));
    lemma_parse_string(pv4, e, seq![125u8] + rest);
    let v4: int = tagend + 1 + enc_string(k4).len() as int + 1;
    let sld = Slots { echo: Some(e), ..slc };
    assert(parse_field_value(s4, v4, k4, slc) == Some::<(Slots, int)>((sld, v4 + venc4.len())));
    assert(venc4[0] == 34);
    lemma_last_field(pre4, slc, k4, venc4, sld, rest);
    assert(parse_body_fields(s, tagend + 1, slc) == Some::<(Slots, int)>(
        (sld, v4 + venc4.len() + 1),
    ));
    assert(sld == slots_of(b));
    assert(v4 + venc4.len() + 1 == pre.len() + enc_body_inner(b).len() + 1);
}

#[verifier::rlimit(100)]
#[verifier::spinoff_prover]
proof fn lemma_bf_generate_ok(pre: Seq<u8>, b: BodyModel, rest: Seq<u8>, e: Seq<u8>)
    requires
        b.payload == (PayloadModel::GenerateOk { id: e }),
    ensures
        parse_body_fields(
            pre + enc_body_inner(b) + seq![125u8] + rest,
            pre.len() + enc_prefix3(b).len() + 1int,
            sl3(b),
        ) == Some::<(Slots, int)>((slots_of(b), pre.len() + enc_body_inner(b).len() + 1int)),
{
    let p = b.payload;
    let pf = enc_payload_fields(p);
    let s = pre + enc_body_inner(b) + seq![125u8] + rest;
    let slc = sl3(b);
    let tagend: int = pre.len() as int + enc_prefix3(b).len() as int;
    lemma_keys_distinct();
    assert(enc_body_inner(b) =~= enc_prefix3(b) + pf);
    let k4 = k_id();
    let venc4 = enc_string(e);
    let pre4 = pre + enc_prefix3(b) + seq![44u8];
    assert(pre4.len() == tagend + 1);
    let s4 = pre4 + enc_string(k4) + seq![58u8] + venc4 + seq![125u8] + rest;
    assert(s =~= s4);
    let pv4 = pre4 + enc_string(k4) + seq![58u8];
    assert(s4 =~= pv4 + venc4 + (seq![125u8] + rest));
    lemma_parse_string(pv4, e, seq![125u8] + rest);
    let v4: int = tagend + 1 + enc_string(k4).len() as int + 1;
    let sld = Slots { id: Some(e), ..slc };
    assert(parse_field_value(s4, v4, k4, slc) == Some::<(Slots, int)>((sld, v4 + venc4.len())));
    assert(venc4[0] == 34);
    lemma_last_field(pre4, slc, k4, venc4, sld, rest);
    assert(parse_body_fields(s, tagend + 1, slc) == Some::<(Slots, int)>(
        (sld, v4 + venc4.len() + 1),
    ));
    assert(sld == slots_of(b));
    assert(v4 + venc4.len() + 1 == pre.len() + enc_body_inner(b).len() + 1);
}

#[verifier::rlimit(100)]
#[verifier::spinoff_prover]
proof fn lemma_bf_broadcast(pre: Seq<u8>, b: BodyModel, rest: Seq<u8>, v: i32)
    requires
        b.payload == (PayloadModel::Broadcast { message: v }),
        
    ensures
        parse_body_fields(
            pre + enc_body_inner(b) + seq![125u8] + rest,
            pre.len() + enc_prefix3(b).len() + 1int,
            sl3(b),
        ) == Some::<(Slots, int)>((slots_of(b), pre.len() + enc_body_inner(b).len() + 1int)),
{
    let p = b.payload;
    let pf = enc_payload_fields(p);
    let s = pre + enc_body_inner(b) + seq![125u8] + rest;
    let slc = sl3(b);
    let tagend: int = pre.len() as int + enc_prefix3(b).len() as int;
    lemma_keys_distinct();
    assert(enc_body_inner(b) =~= enc_prefix3(b) + pf);
    let k4 = k_message();
    let venc4 = crate::json::enc_i32(v);
    let pre4 = pre + enc_prefix3(b) + seq![44u8];
    assert(pre4.len() == tagend + 1);
    let s4 = pre4 + enc_string(k4) + seq![58u8] + venc4 + seq![125u8] + rest;
    assert(s =~= s4);
    let pv4 = pre4 + enc_string(k4) + seq![58u8];
    assert(s4 =~= pv4 + venc4 + (seq![125u8] + rest));
    if v >= 0 {
        lemma_dec_digits(v as nat);
    } else {
        lemma_dec_digits((-(v as int)) as nat);
    }
    assert(!crate::json::is_digit((seq![125u8] + rest)[0]));
    lemma_parse_i32(pv4, v, seq![125u8] + rest);
    let v4: int = tagend + 1 + enc_string(k4).len() as int + 1;
    let sld = Slots { message: Some(v), ..slc };
    assert(parse_field_value(s4, v4, k4, slc) == Some::<(Slots, int)>((sld, v4 + venc4.len())));
    assert(!is_ws(venc4[0])) by {
        if v < 0 {
            assert(venc4[0] == 45);
        } else {
            assert(crate::json::is_digit(dec_digits(v as nat)[0]));
        }
    }
    lemma_last_field(pre4, slc, k4, venc4, sld, rest);
    assert(parse_body_fields(s, tagend + 1, slc) == Some::<(Slots, int)>(
        (sld, v4 + venc4.len() + 1),
    ));
    assert(sld == slots_of(b));
    assert(v4 + venc4.len() + 1 == pre.len() + enc_body_inner(b).len() + 1);
}

#[verifier::rlimit(100)]
#[verifier::spinoff_prover]
proof fn lemma_bf_read_ok(pre: Seq<u8>, b: BodyModel, rest: Seq<u8>, ms: Seq<i32>)
    requires
        b.payload == (PayloadModel::ReadOk { messages: ms }),
        
    ensures
        parse_body_fields(
            pre + enc_body_inner(b) + seq![125u8] + rest,
            pre.len() + enc_prefix3(b).len() + 1int,
            sl3(b),
        ) == Some::<(Slots, int)>((slots_of(b), pre.len() + enc_body_inner(b).len() + 1int)),
{
    let p = b.payload;
    let pf = enc_payload_fields(p);
    let s = pre + enc_body_inner(b) + seq![125u8] + rest;
    let slc = sl3(b);
    let tagend: int = pre.len() as int + enc_prefix3(b).len() as int;
    lemma_keys_distinct();
    assert(enc_body_inner(b) =~= enc_prefix3(b) + pf);
    let k4 = k_messages();
    let venc4 = enc_i32s(ms);
    let pre4 = pre + enc_prefix3(b) + seq![44u8];
    assert(pre4.len() == tagend + 1);
    let s4 = pre4 + enc_string(k4) + seq![58u8] + venc4 + seq![125u8] + rest;
    assert(s =~= s4);
    let pv4 = pre4 + enc_string(k4) + seq![58u8];
    assert(s4 =~= pv4 + venc4 + (seq![125u8] + rest));
    lemma_parse_i32s(pv4, ms, seq![125u8] + rest);
    let v4: int = tagend + 1 + enc_string(k4).len() as int + 1;
    let sld = Slots { messages: Some(ms), ..slc };
    assert(parse_field_value(s4, v4, k4, slc) == Some::<(Slots, int)>((sld, v4 + venc4.len())));
    assert(venc4[0] == 91);
    lemma_last_field(pre4, slc, k4, venc4, sld, rest);
    assert(parse_body_fields(s, tagend + 1, slc) == Some::<(Slots, int)>(
        (sld, v4 + venc4.len() + 1),
    ));
    assert(sld == slots_of(b));
    assert(v4 + venc4.len() + 1 == pre.len() + enc_body_inner(b).len() + 1);
}

#[verifier::rlimit(100)]
#[verifier::spinoff_prover]
proof fn lemma_bf_read_ok_value(pre: Seq<u8>, b: BodyModel, rest: Seq<u8>, n: u32)
    requires
        b.payload == (PayloadModel::ReadOkValue { value: n }),
        
    ensures
        parse_body_fields(
            pre + enc_body_inner(b) + seq![125u8] + rest,
            pre.len() + enc_prefix3(b).len() + 1int,
            sl3(b),
        ) == Some::<(Slots, int)>((slots_of(b), pre.len() + enc_body_inner(b).len() + 1int)),
{
    let p = b.payload;
    let pf = enc_payload_fields(p);
    let s = pre + enc_body_inner(b) + seq![125u8] + rest;
    let slc = sl3(b);
    let tagend: int = pre.len() as int + enc_prefix3(b).len() as int;
    lemma_keys_distinct();
    assert(enc_body_inner(b) =~= enc_prefix3(b) + pf);
    let k4 = k_value();
    let venc4 = dec_digits(n as nat);
    let pre4 = pre + enc_prefix3(b) + seq![44u8];
    assert(pre4.len() == tagend + 1);
    let s4 = pre4 + enc_string(k4) + seq![58u8] + venc4 + seq![125u8] + rest;
    assert(s =~= s4);
    let pv4 = pre4 + enc_string(k4) + seq![58u8];
    assert(s4 =~= pv4 + venc4 + (seq![125u8] + rest));
    lemma_parse_dec(pv4, n as u64, seq![125u8] + rest);
    lemma_dec_digits(n as nat);
    let v4: int = tagend + 1 + enc_string(k4).len() as int + 1;
    let sld = Slots { value: Some(n), ..slc };
    assert(parse_field_value(s4, v4, k4, slc) == Some::<(Slots, int)>((sld, v4 + venc4.len())));
    assert(!is_ws(venc4[0])) by {
        assert(crate::json::is_digit(dec_digits(n as nat)[0]));
    }
    lemma_last_field(pre4, slc, k4, venc4, sld, rest);
    assert(parse_body_fields(s, tagend + 1, slc) == Some::<(Slots, int)>(
        (sld, v4 + venc4.len() + 1),
    ));
    assert(sld == slots_of(b));
    assert(v4 + venc4.len() + 1 == pre.len() + enc_body_inner(b).len() + 1);
}

#[verifier::rlimit(100)]
#[verifier::spinoff_prover]
proof fn lemma_bf_topology(pre: Seq<u8>, b: BodyModel, rest: Seq<u8>, tp: Seq<(Seq<u8>, Seq<Seq<u8>>)>)
    requires
        b.payload == (PayloadModel::Topology { topology: tp }),
    ensures
        parse_body_fields(
            pre + enc_body_inner(b) + seq![125u8] + rest,
            pre.len() + enc_prefix3(b).len() + 1int,
            sl3(b),
        ) == Some::<(Slots, int)>((slots_of(b), pre.len() + enc_body_inner(b).len() + 1int)),
{
    let p = b.payload;
    let pf = enc_payload_fields(p);
    let s = pre + enc_body_inner(b) + seq![125u8] + rest;
    let slc = sl3(b);
    let tagend: int = pre.len() as int + enc_prefix3(b).len() as int;
    lemma_keys_distinct();
    assert(enc_body_inner(b) =~= enc_prefix3(b) + pf);
    let k4 = k_topology();
    let venc4 = enc_topo(tp);
    let pre4 = pre + enc_prefix3(b) + seq![44u8];
    assert(pre4.len() == tagend + 1);
    let s4 = pre4 + enc_string(k4) + seq![58u8] + venc4 + seq![125u8] + rest;
    assert(s =~= s4);
    let pv4 = pre4 + enc_string(k4) + seq![58u8];
    assert(s4 =~= pv4 + venc4 + (seq![125u8] + rest));
    lemma_parse_topo(pv4, tp, seq![125u8] + rest);
    let v4: int = tagend + 1 + enc_string(k4).len() as int + 1;
    let sld = Slots { topology: Some(tp), ..slc };
    assert(parse_field_value(s4, v4, k4, slc) == Some::<(Slots, int)>((sld, v4 + venc4.len())));
    assert(venc4[0] == 123);
    lemma_last_field(pre4, slc, k4, venc4, sld, rest);
    assert(parse_body_fields(s, tagend + 1, slc) == Some::<(Slots, int)>(
        (sld, v4 + venc4.len() + 1),
    ));
    assert(sld == slots_of(b));
    assert(v4 + venc4.len() + 1 == pre.len() + enc_body_inner(b).len() + 1);
}

#[verifier::rlimit(100)]
#[verifier::spinoff_prover]
proof fn lemma_bf_add(pre: Seq<u8>, b: BodyModel, rest: Seq<u8>, n: u32)
    requires
        b.payload == (PayloadModel::Add { delta: n }),
        
    ensures
        parse_body_fields(
            pre + enc_body_inner(b) + seq![125u8] + rest,
            pre.len() + enc_prefix3(b).len() + 1int,
            sl3(b),
        ) == Some::<(Slots, int)>((slots_of(b), pre.len() + enc_body_inner(b).len() + 1int)),
{
    let p = b.payload;
    let pf = enc_payload_fields(p);
    let s = pre + enc_body_inner(b) + seq![125u8] + rest;
    let slc = sl3(b);
    let tagend: int = pre.len() as int + enc_prefix3(b).len() as int;
    lemma_keys_distinct();
    assert(enc_body_inner(b) =~= enc_prefix3(b) + pf);
    let k4 = k_delta();
    let venc4 = dec_digits(n as nat);
    let pre4 = pre + enc_prefix3(b) + seq![44u8];
    assert(pre4.len() == tagend + 1);
    let s4 = pre4 + enc_string(k4) + seq![58u8] + venc4 + seq![125u8] + rest;
    assert(s =~= s4);
    let pv4 = pre4 + enc_string(k4) + seq![58u8];
    assert(s4 =~= pv4 + venc4 + (seq![125u8] + rest));
    lemma_parse_dec(pv4, n as u64, seq![125u8] + rest);
    lemma_dec_digits(n as nat);
    let v4: int = tagend + 1 + enc_string(k4).len() as int + 1;
    let sld = Slots { delta: Some(n), ..slc };
    assert(parse_field_value(s4, v4, k4, slc) == Some::<(Slots, int)>((sld, v4 + venc4.len())));
    assert(!is_ws(venc4[0])) by {
        assert(crate::json::is_digit(dec_digits(n as nat)[0]));
    }
    lemma_last_field(pre4, slc, k4, venc4, sld, rest);
    assert(parse_body_fields(s, tagend + 1, slc) == Some::<(Slots, int)>(
        (sld, v4 + venc4.len() + 1),
    ));
    assert(sld == slots_of(b));
    assert(v4 + venc4.len() + 1 == pre.len() + enc_body_inner(b).len() + 1);
}

#[verifier::rlimit(100)]
#[verifier::spinoff_prover]
proof fn lemma_bf_init(pre: Seq<u8>, b: BodyModel, rest: Seq<u8>, ni: Seq<u8>, ns: Seq<Seq<u8>>)
    requires
        b.payload == (PayloadModel::Init { node_id: ni, node_ids: ns }),
    ensures
        parse_body_fields(
            pre + enc_body_inner(b) + seq![125u8] + rest,
            pre.len() + enc_prefix3(b).len() + 1int,
            sl3(b),
        ) == Some::<(Slots, int)>((slots_of(b), pre.len() + enc_body_inner(b).len() + 1int)),
{
    let p = b.payload;
    let pf = enc_payload_fields(p);
    let s = pre + enc_body_inner(b) + seq![125u8] + rest;
    let slc = sl3(b);
    let tagend: int = pre.len() as int + enc_prefix3(b).len() as int;
    lemma_keys_distinct();
    assert(enc_body_inner(b) =~= enc_prefix3(b) + pf);
    let k4 = k_node_id();
    let venc4 = enc_string(ni);
    let pre4 = pre + enc_prefix3(b) + seq![44u8];
    assert(pre4.len() == tagend + 1);
    let rest2_4 = enc_string(k_node_ids()) + seq![58u8] + enc_strs(ns) + seq![125u8] + rest;
    let s4 = pre4 + enc_string(k4) + seq![58u8] + venc4 + seq![44u8] + rest2_4;
    assert(s =~= s4);
    let pv4 = pre4 + enc_string(k4) + seq![58u8];
    assert(s4 =~= pv4 + venc4 + (seq![44u8] + rest2_4));
    lemma_parse_string(pv4, ni, seq![44u8] + rest2_4);
    let v4: int = tagend + 1 + enc_string(k4).len() as int + 1;
    let sld = Slots { node_id: Some(ni), ..slc };
    assert(parse_field_value(s4, v4, k4, slc) == Some::<(Slots, int)>((sld, v4 + venc4.len())));
    assert(venc4[0] == 34);
    assert(rest2_4[0] == 34) by {
        assert(enc_string(k_node_ids())[0] == 34);
    }
    lemma_mid_field(pre4, slc, k4, venc4, sld, rest2_4);
    let p5: int = v4 + venc4.len() as int + 1;
    assert(parse_body_fields(s, tagend + 1, slc) == parse_body_fields(s, p5, sld));
    let k5 = k_node_ids();
    let venc5 = enc_strs(ns);
    let pre5 = pre4 + enc_string(k4) + seq![58u8] + venc4 + seq![44u8];
    assert(pre5.len() == p5);
    let s5 = pre5 + enc_string(k5) + seq![58u8] + venc5 + seq![125u8] + rest;
    assert(s =~= s5);
    let pv5 = pre5 + enc_string(k5) + seq![58u8];
    assert(s5 =~= pv5 + venc5 + (seq![125u8] + rest));
    lemma_parse_strs(pv5, ns, seq![125u8] + rest);
    let v5: int = p5 + enc_string(k5).len() as int + 1;
    assert(venc5.len() >= 2);
    let sle = Slots { node_ids: Some(ns), ..sld };
    assert(parse_field_value(s5, v5, k5, sld) == Some::<(Slots, int)>((sle, v5 + venc5.len())));
    assert(venc5[0] == 91);
    lemma_last_field(pre5, sld, k5, venc5, sle, rest);
    assert(parse_body_fields(s, p5, sld) == Some::<(Slots, int)>((sle, v5 + venc5.len() + 1)));
    assert(sle == slots_of(b));
    assert(v5 + venc5.len() + 1 == pre.len() + enc_body_inner(b).len() + 1);
}

/// Walking the parser through a whole canonical body's field list.
#[verifier::rlimit(100)]
#[verifier::spinoff_prover]
proof fn lemma_body_fields(pre: Seq<u8>, b: BodyModel, rest: Seq<u8>)
    ensures
        parse_body_fields(
            pre + enc_body_inner(b) + seq![125u8] + rest,
            pre.len() as int,
            empty_slots(),
        ) == Some::<(Slots, int)>((slots_of(b), pre.len() + enc_body_inner(b).len() + 1int)),
{
    let p = b.payload;
    lemma_body_prefix(pre, b, rest);
    match p {
        PayloadModel::Init { node_id, node_ids } => {
            lemma_bf_init(pre, b, rest, node_id, node_ids);
        },
        PayloadModel::Echo { echo } => {
            lemma_bf_echo(pre, b, rest, echo);
        },
        PayloadModel::EchoOk { echo } => {
            lemma_bf_echo_ok(pre, b, rest, echo);
        },
        PayloadModel::GenerateOk { id } => {
            lemma_bf_generate_ok(pre, b, rest, id);
        },
        PayloadModel::Broadcast { message } => {
            lemma_bf_broadcast(pre, b, rest, message);
        },
        PayloadModel::ReadOk { messages } => {
            lemma_bf_read_ok(pre, b, rest, messages);
        },
        PayloadModel::ReadOkValue { value } => {
            lemma_bf_read_ok_value(pre, b, rest, value);
        },
        PayloadModel::Topology { topology } => {
            lemma_bf_topology(pre, b, rest, topology);
        },
        PayloadModel::Add { delta } => {
            lemma_bf_add(pre, b, rest, delta);
        },
        PayloadModel::InitOk => {
            assert(enc_payload_fields(p).len() == 0);
            assert(slots_of(b) == sl3(b));
        },
        PayloadModel::Generate => {
            assert(enc_payload_fields(p).len() == 0);
            assert(slots_of(b) == sl3(b));
        },
        PayloadModel::BroadcastOk => {
            assert(enc_payload_fields(p).len() == 0);
            assert(slots_of(b) == sl3(b));
        },
        PayloadModel::Read => {
            assert(enc_payload_fields(p).len() == 0);
            assert(slots_of(b) == sl3(b));
        },
        PayloadModel::TopologyOk => {
            assert(enc_payload_fields(p).len() == 0);
            assert(slots_of(b) == sl3(b));
        },
        PayloadModel::AddOk => {
            assert(enc_payload_fields(p).len() == 0);
            assert(slots_of(b) == sl3(b));
        },
    }
}

/// A canonical body's slots assemble back to its payload.
#[verifier::rlimit(100)]
#[verifier::spinoff_prover]
proof fn lemma_assemble(b: BodyModel)
    ensures
        assemble_payload(slots_of(b)) == Some(b.payload),
{
    lemma_tags_distinct();
    match b.payload {
        PayloadModel::Init { node_id, node_ids } => {
            assert(assemble_payload(slots_of(b)) == Some(b.payload));
        },
        PayloadModel::InitOk => {
            assert(assemble_payload(slots_of(b)) == Some(b.payload));
        },
        PayloadModel::Echo { echo } => {
            assert(assemble_payload(slots_of(b)) == Some(b.payload));
        },
        PayloadModel::EchoOk { echo } => {
            assert(assemble_payload(slots_of(b)) == Some(b.payload));
        },
        PayloadModel::Generate => {
            assert(assemble_payload(slots_of(b)) == Some(b.payload));
        },
        PayloadModel::GenerateOk { id } => {
            assert(assemble_payload(slots_of(b)) == Some(b.payload));
        },
        PayloadModel::Broadcast { message } => {
            assert(assemble_payload(slots_of(b)) == Some(b.payload));
        },
        PayloadModel::BroadcastOk => {
            assert(assemble_payload(slots_of(b)) == Some(b.payload));
        },
        PayloadModel::Read => {
            assert(assemble_payload(slots_of(b)) == Some(b.payload));
        },
        PayloadModel::ReadOk { messages } => {
            assert(assemble_payload(slots_of(b)) == Some(b.payload));
        },
        PayloadModel::ReadOkValue { value } => {
            assert(assemble_payload(slots_of(b)) == Some(b.payload));
        },
        PayloadModel::Topology { topology } => {
            assert(assemble_payload(slots_of(b)) == Some(b.payload));
        },
        PayloadModel::TopologyOk => {
            assert(assemble_payload(slots_of(b)) == Some(b.payload));
        },
        PayloadModel::Add { delta } => {
            assert(assemble_payload(slots_of(b)) == Some(b.payload));
        },
        PayloadModel::AddOk => {
            assert(assemble_payload(slots_of(b)) == Some(b.payload));
        },
    }
}

/// A canonical body parses back to itself, in any context.
#[verifier::rlimit(100)]
#[verifier::spinoff_prover]
proof fn lemma_body_ctx(pre: Seq<u8>, b: BodyModel, rest: Seq<u8>)
    ensures
        parse_body(pre + enc_body(b) + rest, pre.len() as int) == Some::<(BodyModel, int)>(
            (b, pre.len() + enc_body(b).len() as int),
        ),
{
    let s = pre + enc_body(b) + rest;
    let pre1 = pre + seq![123u8];
    lemma_body_fields(pre1, b, rest);
    assert(s =~= pre1 + enc_body_inner(b) + seq![125u8] + rest);
    assert(s[pre.len() as int] == 123) by {
        assert(enc_body(b)[0] == 123);
    }
    assert(s[pre.len() as int + 1] == 34) by {
        assert(enc_body_inner(b)[0] == enc_string(k_msg_id())[0]);
        assert(enc_string(k_msg_id())[0] == 34);
        assert(enc_body(b)[1] == enc_body_inner(b)[0]);
    }
    assert(skip_ws(s, pre.len() as int + 1) == pre.len() as int + 1);
    lemma_assemble(b);
    assert(slots_of(b).msg_id == b.msg_id);
    assert(slots_of(b).in_reply_to == b.in_reply_to);
    assert(pre.len() + 1 < s.len());
    assert(pre1.len() + enc_body_inner(b).len() + 1 == pre.len() + enc_body(b).len());
}

/// The round-trip law: decoding a canonical rendering yields the envelope.
#[verifier::rlimit(100)]
#[verifier::spinoff_prover]
pub proof fn lemma_round_trip(m: MessageModel)
    ensures
        spec_decode(enc_message(m)) == Some(m),
{
    let s = enc_message(m);
    let b = m.body;
    assert(k_dest() != k_src()) by {
        assert(k_dest().len() == 4);
        assert(k_src().len() == 3);
    }
    assert(k_body() != k_src()) by {
        assert(k_body().len() == 4);
        assert(k_src().len() == 3);
    }
    assert(k_body() != k_dest()) by {
        assert(k_body()[0] == 98);
        assert(k_dest()[0] == 100);
    }

    // field 1: src
    let pre1 = seq![123u8];
    let venc1 = enc_string(m.src);
    let rest2_1 = enc_string(k_dest()) + seq![58u8] + enc_string(m.dest) + seq![44u8]
        + enc_string(k_body()) + seq![58u8] + enc_body(b) + seq![125u8];
    let s1 = pre1 + enc_string(k_src()) + seq![58u8] + venc1 + seq![44u8] + rest2_1;
    assert(s =~= s1);
    let pv1 = pre1 + enc_string(k_src()) + seq![58u8];
    assert(s1 =~= pv1 + venc1 + (seq![44u8] + rest2_1));
    lemma_parse_string(pv1, m.src, seq![44u8] + rest2_1);
    let v1: int = 1 + enc_string(k_src()).len() as int + 1;
    let ms_a = MSlots { src: Some(m.src), ..empty_mslots() };
    assert(parse_msg_field_value(s1, v1, k_src(), empty_mslots()) == Some::<(MSlots, int)>(
        (ms_a, v1 + venc1.len()),
    ));
    assert(venc1[0] == 34);
    assert(rest2_1[0] == 34) by {
        assert(enc_string(k_dest())[0] == 34);
    }
    lemma_msg_mid_field(pre1, empty_mslots(), k_src(), venc1, ms_a, rest2_1);
    let p1: int = v1 + venc1.len() as int + 1;
    assert(parse_msg_fields(s, 1, empty_mslots()) == parse_msg_fields(s, p1, ms_a));

    // field 2: dest
    let pre2 = pre1 + enc_string(k_src()) + seq![58u8] + venc1 + seq![44u8];
    assert(pre2.len() == p1);
    let venc2 = enc_string(m.dest);
    let rest2_2 = enc_string(k_body()) + seq![58u8] + enc_body(b) + seq![125u8];
    let s2 = pre2 + enc_string(k_dest()) + seq![58u8] + venc2 + seq![44u8] + rest2_2;
    assert(s =~= s2);
    let pv2 = pre2 + enc_string(k_dest()) + seq![58u8];
    assert(s2 =~= pv2 + venc2 + (seq![44u8] + rest2_2));
    lemma_parse_string(pv2, m.dest, seq![44u8] + rest2_2);
    let v2: int = p1 + enc_string(k_dest()).len() as int + 1;
    let ms_b = MSlots { dest: Some(m.dest), ..ms_a };
    assert(parse_msg_field_value(s2, v2, k_dest(), ms_a) == Some::<(MSlots, int)>(
        (ms_b, v2 + venc2.len()),
    ));
    assert(venc2[0] == 34);
    assert(rest2_2[0] == 34) by {
        assert(enc_string(k_body())[0] == 34);
    }
    lemma_msg_mid_field(pre2, ms_a, k_dest(), venc2, ms_b, rest2_2);
    let p2: int = v2 + venc2.len() as int + 1;
    assert(parse_msg_fields(s, p1, ms_a) == parse_msg_fields(s, p2, ms_b));

    // field 3: body
    let pre3 = pre2 + enc_string(k_dest()) + seq![58u8] + venc2 + seq![44u8];
    assert(pre3.len() == p2);
    let venc3 = enc_body(b);
    let s3 = pre3 + enc_string(k_body()) + seq![58u8] + venc3 + seq![125u8] + Seq::<u8>::empty();
    assert(s =~= s3);
    let pv3 = pre3 + enc_string(k_body()) + seq![58u8];
    assert(s3 =~= pv3 + venc3 + (seq![125u8] + Seq::<u8>::empty()));
    lemma_body_ctx(pv3, b, seq![125u8] + Seq::<u8>::empty());
    let v3: int = p2 + enc_string(k_body()).len() as int + 1;
    assert(venc3.len() >= 2);
    let ms_c = MSlots { body: Some(b), ..ms_b };
    assert(parse_msg_field_value(s3, v3, k_body(), ms_b) == Some::<(MSlots, int)>(
        (ms_c, v3 + venc3.len()),
    ));
    assert(venc3[0] == 123) by {
        assert(enc_body(b)[0] == 123);
    }
    lemma_msg_last_field(pre3, ms_b, k_body(), venc3, ms_c, Seq::<u8>::empty());
    let jend: int = v3 + venc3.len() as int + 1;
    assert(parse_msg_fields(s, p2, ms_b) == Some::<(MSlots, int)>((ms_c, jend)));

    // the whole envelope
    assert(s[0] == 123) by {
        assert(s1[0] == 123);
    }
    assert(s[1] == 34) by {
        assert(s1[1] == enc_string(k_src())[0]);
        assert(enc_string(k_src())[0] == 34);
    }
    assert(jend == s.len());
    assert(skip_ws(s, 0) == 0);
    assert(skip_ws(s, 1) == 1);
    assert(skip_ws(s, jend) == jend);
    assert(parse_message(s, 0) == Some::<(MessageModel, int)>((m, jend)));
    assert(spec_decode(s) == Some(m));
}

} // verus!
