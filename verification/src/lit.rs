//! The wire format's field names and payload tags, as byte strings, with
//! executable builders.

use vstd::prelude::*;

verus! {

/// The literal `src`.
pub open spec fn k_src() -> Seq<u8> {
    seq![115u8, 114u8, 99u8]
}

pub fn lit_src() -> (r: Vec<u8>)
    ensures
        r@ == k_src(),
{
    let mut v: Vec<u8> = Vec::new();
    v.push(115);
    v.push(114);
    v.push(99);
    assert(v@ =~= k_src());
    v
}

/// The literal `dest`.
pub open spec fn k_dest() -> Seq<u8> {
    seq![100u8, 101u8, 115u8, 116u8]
}

pub fn lit_dest() -> (r: Vec<u8>)
    ensures
        r@ == k_dest(),
{
    let mut v: Vec<u8> = Vec::new();
    v.push(100);
    v.push(101);
    v.push(115);
    v.push(116);
    assert(v@ =~= k_dest());
    v
}

/// The literal `body`.
pub open spec fn k_body() -> Seq<u8> {
    seq![98u8, 111u8, 100u8, 121u8]
}

pub fn lit_body() -> (r: Vec<u8>)
    ensures
        r@ == k_body(),
{
    let mut v: Vec<u8> = Vec::new();
    v.push(98);
    v.push(111);
    v.push(100);
    v.push(121);
    assert(v@ =~= k_body());
    v
}

/// The literal `msg_id`.
pub open spec fn k_msg_id() -> Seq<u8> {
    seq![109u8, 115u8, 103u8, 95u8, 105u8, 100u8]
}

pub fn lit_msg_id() -> (r: Vec<u8>)
    ensures
        r@ == k_msg_id(),
{
    let mut v: Vec<u8> = Vec::new();
    v.push(109);
    v.push(115);
    v.push(103);
    v.push(95);
    v.push(105);
    v.push(100);
    assert(v@ =~= k_msg_id());
    v
}

/// The literal `in_reply_to`.
pub open spec fn k_in_reply_to() -> Seq<u8> {
    seq![105u8, 110u8, 95u8, 114u8, 101u8, 112u8, 108u8, 121u8, 95u8, 116u8, 111u8]
}

pub fn lit_in_reply_to() -> (r: Vec<u8>)
    ensures
        r@ == k_in_reply_to(),
{
    let mut v: Vec<u8> = Vec::new();
    v.push(105);
    v.push(110);
    v.push(95);
    v.push(114);
    v.push(101);
    v.push(112);
    v.push(108);
    v.push(121);
    v.push(95);
    v.push(116);
    v.push(111);
    assert(v@ =~= k_in_reply_to());
    v
}

/// The literal `type`.
pub open spec fn k_type() -> Seq<u8> {
    seq![116u8, 121u8, 112u8, 101u8]
}

pub fn lit_type() -> (r: Vec<u8>)
    ensures
        r@ == k_type(),
{
    let mut v: Vec<u8> = Vec::new();
    v.push(116);
    v.push(121);
    v.push(112);
    v.push(101);
    assert(v@ =~= k_type());
    v
}

/// The literal `echo`.
pub open spec fn k_echo() -> Seq<u8> {
    seq![101u8, 99u8, 104u8, 111u8]
}

pub fn lit_echo() -> (r: Vec<u8>)
    ensures
        r@ == k_echo(),
{
    let mut v: Vec<u8> = Vec::new();
    v.push(101);
    v.push(99);
    v.push(104);
    v.push(111);
    assert(v@ =~= k_echo());
    v
}

/// The literal `id`.
pub open spec fn k_id() -> Seq<u8> {
    seq![105u8, 100u8]
}

pub fn lit_id() -> (r: Vec<u8>)
    ensures
        r@ == k_id(),
{
    let mut v: Vec<u8> = Vec::new();
    v.push(105);
    v.push(100);
    assert(v@ =~= k_id());
    v
}

/// The literal `node_id`.
pub open spec fn k_node_id() -> Seq<u8> {
    seq![110u8, 111u8, 100u8, 101u8, 95u8, 105u8, 100u8]
}

pub fn lit_node_id() -> (r: Vec<u8>)
    ensures
        r@ == k_node_id(),
{
    let mut v: Vec<u8> = Vec::new();
    v.push(110);
    v.push(111);
    v.push(100);
    v.push(101);
    v.push(95);
    v.push(105);
    v.push(100);
    assert(v@ =~= k_node_id());
    v
}

/// The literal `node_ids`.
pub open spec fn k_node_ids() -> Seq<u8> {
    seq![110u8, 111u8, 100u8, 101u8, 95u8, 105u8, 100u8, 115u8]
}

pub fn lit_node_ids() -> (r: Vec<u8>)
    ensures
        r@ == k_node_ids(),
{
    let mut v: Vec<u8> = Vec::new();
    v.push(110);
    v.push(111);
    v.push(100);
    v.push(101);
    v.push(95);
    v.push(105);
    v.push(100);
    v.push(115);
    assert(v@ =~= k_node_ids());
    v
}

/// The literal `message`.
pub open spec fn k_message() -> Seq<u8> {
    seq![109u8, 101u8, 115u8, 115u8, 97u8, 103u8, 101u8]
}

pub fn lit_message() -> (r: Vec<u8>)
    ensures
        r@ == k_message(),
{
    let mut v: Vec<u8> = Vec::new();
    v.push(109);
    v.push(101);
    v.push(115);
    v.push(115);
    v.push(97);
    v.push(103);
    v.push(101);
    assert(v@ =~= k_message());
    v
}

/// The literal `messages`.
pub open spec fn k_messages() -> Seq<u8> {
    seq![109u8, 101u8, 115u8, 115u8, 97u8, 103u8, 101u8, 115u8]
}

pub fn lit_messages() -> (r: Vec<u8>)
    ensures
        r@ == k_messages(),
{
    let mut v: Vec<u8> = Vec::new();
    v.push(109);
    v.push(101);
    v.push(115);
    v.push(115);
    v.push(97);
    v.push(103);
    v.push(101);
    v.push(115);
    assert(v@ =~= k_messages());
    v
}

/// The literal `topology`.
pub open spec fn k_topology() -> Seq<u8> {
    seq![116u8, 111u8, 112u8, 111u8, 108u8, 111u8, 103u8, 121u8]
}

pub fn lit_topology() -> (r: Vec<u8>)
    ensures
        r@ == k_topology(),
{
    let mut v: Vec<u8> = Vec::new();
    v.push(116);
    v.push(111);
    v.push(112);
    v.push(111);
    v.push(108);
    v.push(111);
    v.push(103);
    v.push(121);
    assert(v@ =~= k_topology());
    v
}

/// The literal `delta`.
pub open spec fn k_delta() -> Seq<u8> {
    seq![100u8, 101u8, 108u8, 116u8, 97u8]
}

pub fn lit_delta() -> (r: Vec<u8>)
    ensures
        r@ == k_delta(),
{
    let mut v: Vec<u8> = Vec::new();
    v.push(100);
    v.push(101);
    v.push(108);
    v.push(116);
    v.push(97);
    assert(v@ =~= k_delta());
    v
}

/// The literal `value`.
pub open spec fn k_value() -> Seq<u8> {
    seq![118u8, 97u8, 108u8, 117u8, 101u8]
}

pub fn lit_value() -> (r: Vec<u8>)
    ensures
        r@ == k_value(),
{
    let mut v: Vec<u8> = Vec::new();
    v.push(118);
    v.push(97);
    v.push(108);
    v.push(117);
    v.push(101);
    assert(v@ =~= k_value());
    v
}

/// The literal `init`.
pub open spec fn t_init() -> Seq<u8> {
    seq![105u8, 110u8, 105u8, 116u8]
}

pub fn tag_init() -> (r: Vec<u8>)
    ensures
        r@ == t_init(),
{
    let mut v: Vec<u8> = Vec::new();
    v.push(105);
    v.push(110);
    v.push(105);
    v.push(116);
    assert(v@ =~= t_init());
    v
}

/// The literal `init_ok`.
pub open spec fn t_init_ok() -> Seq<u8> {
    seq![105u8, 110u8, 105u8, 116u8, 95u8, 111u8, 107u8]
}

pub fn tag_init_ok() -> (r: Vec<u8>)
    ensures
        r@ == t_init_ok(),
{
    let mut v: Vec<u8> = Vec::new();
    v.push(105);
    v.push(110);
    v.push(105);
    v.push(116);
    v.push(95);
    v.push(111);
    v.push(107);
    assert(v@ =~= t_init_ok());
    v
}

/// The literal `echo`.
pub open spec fn t_echo() -> Seq<u8> {
    seq![101u8, 99u8, 104u8, 111u8]
}

pub fn tag_echo() -> (r: Vec<u8>)
    ensures
        r@ == t_echo(),
{
    let mut v: Vec<u8> = Vec::new();
    v.push(101);
    v.push(99);
    v.push(104);
    v.push(111);
    assert(v@ =~= t_echo());
    v
}

/// The literal `echo_ok`.
pub open spec fn t_echo_ok() -> Seq<u8> {
    seq![101u8, 99u8, 104u8, 111u8, 95u8, 111u8, 107u8]
}

pub fn tag_echo_ok() -> (r: Vec<u8>)
    ensures
        r@ == t_echo_ok(),
{
    let mut v: Vec<u8> = Vec::new();
    v.push(101);
    v.push(99);
    v.push(104);
    v.push(111);
    v.push(95);
    v.push(111);
    v.push(107);
    assert(v@ =~= t_echo_ok());
    v
}

/// The literal `generate`.
pub open spec fn t_generate() -> Seq<u8> {
    seq![103u8, 101u8, 110u8, 101u8, 114u8, 97u8, 116u8, 101u8]
}

pub fn tag_generate() -> (r: Vec<u8>)
    ensures
        r@ == t_generate(),
{
    let mut v: Vec<u8> = Vec::new();
    v.push(103);
    v.push(101);
    v.push(110);
    v.push(101);
    v.push(114);
    v.push(97);
    v.push(116);
    v.push(101);
    assert(v@ =~= t_generate());
    v
}

/// The literal `generate_ok`.
pub open spec fn t_generate_ok() -> Seq<u8> {
    seq![103u8, 101u8, 110u8, 101u8, 114u8, 97u8, 116u8, 101u8, 95u8, 111u8, 107u8]
}

pub fn tag_generate_ok() -> (r: Vec<u8>)
    ensures
        r@ == t_generate_ok(),
{
    let mut v: Vec<u8> = Vec::new();
    v.push(103);
    v.push(101);
    v.push(110);
    v.push(101);
    v.push(114);
    v.push(97);
    v.push(116);
    v.push(101);
    v.push(95);
    v.push(111);
    v.push(107);
    assert(v@ =~= t_generate_ok());
    v
}

/// The literal `broadcast`.
pub open spec fn t_broadcast() -> Seq<u8> {
    seq![98u8, 114u8, 111u8, 97u8, 100u8, 99u8, 97u8, 115u8, 116u8]
}

pub fn tag_broadcast() -> (r: Vec<u8>)
    ensures
        r@ == t_broadcast(),
{
    let mut v: Vec<u8> = Vec::new();
    v.push(98);
    v.push(114);
    v.push(111);
    v.push(97);
    v.push(100);
    v.push(99);
    v.push(97);
    v.push(115);
    v.push(116);
    assert(v@ =~= t_broadcast());
    v
}

/// The literal `broadcast_ok`.
pub open spec fn t_broadcast_ok() -> Seq<u8> {
    seq![98u8, 114u8, 111u8, 97u8, 100u8, 99u8, 97u8, 115u8, 116u8, 95u8, 111u8, 107u8]
}

pub fn tag_broadcast_ok() -> (r: Vec<u8>)
    ensures
        r@ == t_broadcast_ok(),
{
    let mut v: Vec<u8> = Vec::new();
    v.push(98);
    v.push(114);
    v.push(111);
    v.push(97);
    v.push(100);
    v.push(99);
    v.push(97);
    v.push(115);
    v.push(116);
    v.push(95);
    v.push(111);
    v.push(107);
    assert(v@ =~= t_broadcast_ok());
    v
}

/// The literal `read`.
pub open spec fn t_read() -> Seq<u8> {
    seq![114u8, 101u8, 97u8, 100u8]
}

pub fn tag_read() -> (r: Vec<u8>)
    ensures
        r@ == t_read(),
{
    let mut v: Vec<u8> = Vec::new();
    v.push(114);
    v.push(101);
    v.push(97);
    v.push(100);
    assert(v@ =~= t_read());
    v
}

/// The literal `read_ok`.
pub open spec fn t_read_ok() -> Seq<u8> {
    seq![114u8, 101u8, 97u8, 100u8, 95u8, 111u8, 107u8]
}

pub fn tag_read_ok() -> (r: Vec<u8>)
    ensures
        r@ == t_read_ok(),
{
    let mut v: Vec<u8> = Vec::new();
    v.push(114);
    v.push(101);
    v.push(97);
    v.push(100);
    v.push(95);
    v.push(111);
    v.push(107);
    assert(v@ =~= t_read_ok());
    v
}

/// The literal `topology`.
pub open spec fn t_topology() -> Seq<u8> {
    seq![116u8, 111u8, 112u8, 111u8, 108u8, 111u8, 103u8, 121u8]
}

pub fn tag_topology() -> (r: Vec<u8>)
    ensures
        r@ == t_topology(),
{
    let mut v: Vec<u8> = Vec::new();
    v.push(116);
    v.push(111);
    v.push(112);
    v.push(111);
    v.push(108);
    v.push(111);
    v.push(103);
    v.push(121);
    assert(v@ =~= t_topology());
    v
}

/// The literal `topology_ok`.
pub open spec fn t_topology_ok() -> Seq<u8> {
    seq![116u8, 111u8, 112u8, 111u8, 108u8, 111u8, 103u8, 121u8, 95u8, 111u8, 107u8]
}

pub fn tag_topology_ok() -> (r: Vec<u8>)
    ensures
        r@ == t_topology_ok(),
{
    let mut v: Vec<u8> = Vec::new();
    v.push(116);
    v.push(111);
    v.push(112);
    v.push(111);
    v.push(108);
    v.push(111);
    v.push(103);
    v.push(121);
    v.push(95);
    v.push(111);
    v.push(107);
    assert(v@ =~= t_topology_ok());
    v
}

/// The literal `add`.
pub open spec fn t_add() -> Seq<u8> {
    seq![97u8, 100u8, 100u8]
}

pub fn tag_add() -> (r: Vec<u8>)
    ensures
        r@ == t_add(),
{
    let mut v: Vec<u8> = Vec::new();
    v.push(97);
    v.push(100);
    v.push(100);
    assert(v@ =~= t_add());
    v
}

/// The literal `add_ok`.
pub open spec fn t_add_ok() -> Seq<u8> {
    seq![97u8, 100u8, 100u8, 95u8, 111u8, 107u8]
}

pub fn tag_add_ok() -> (r: Vec<u8>)
    ensures
        r@ == t_add_ok(),
{
    let mut v: Vec<u8> = Vec::new();
    v.push(97);
    v.push(100);
    v.push(100);
    v.push(95);
    v.push(111);
    v.push(107);
    assert(v@ =~= t_add_ok());
    v
}

} // verus!