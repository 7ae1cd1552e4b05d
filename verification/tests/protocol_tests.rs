//! The runtime handshake, the four nodes, and the delivery protocol.

use node_runtime::codec::{decode, encode};
use node_runtime::counter::GCounterNode;
use node_runtime::echo::EchoNode;
use node_runtime::gossip::BroadcastNode;
use node_runtime::message::{Message, MessageBody, MessagePayload, MessageId};
use node_runtime::node::{Action, Error};
use node_runtime::registry::UnackedRegistry;
use node_runtime::runtime::{ProtocolError, Runtime};
use node_runtime::unique_ids::UniqueIdNode;

fn msg(src: &str, dest: &str, msg_id: Option<u64>, in_reply_to: Option<u64>, payload: MessagePayload) -> Message {
    Message {
        src: src.as_bytes().to_vec(),
        dest: dest.as_bytes().to_vec(),
        body: MessageBody { msg_id, in_reply_to, payload },
    }
}

#[test]
fn init_handshake_scenario() {
    let line = br#"{"src":"c0","dest":"n1","body":{"type":"init","msg_id":1,"node_id":"n1","node_ids":["n1"]}}"#;
    let outcome = Runtime::process_init(&line.to_vec()).expect("a well-formed init line");
    assert_eq!(outcome.node_id, b"n1".to_vec());
    assert!(outcome.peers.is_empty(), "own identifier is filtered out");
    assert_eq!(outcome.reply_dest, b"c0".to_vec());
    assert_eq!(outcome.in_reply_to, Some(1));
    let (_, reply) = Runtime::bootstrap::<EchoNode>(&line.to_vec()).unwrap();
    assert_eq!(reply.src, b"n1".to_vec());
    assert_eq!(reply.dest, b"c0".to_vec());
    assert_eq!(reply.body.in_reply_to, Some(1));
    assert!(matches!(reply.body.payload, MessagePayload::InitOk));
    let rendered = String::from_utf8(encode(&reply)).unwrap();
    assert!(rendered.contains(r#""type":"init_ok""#));
    assert!(rendered.contains(r#""in_reply_to":1"#));
}

#[test]
fn bootstrap_constructs_the_node_from_the_handshake() {
    let line = br#"{"src":"c0","dest":"n1","body":{"type":"init","msg_id":1,"node_id":"n1","node_ids":["n1","n2"]}}"#;
    let (node, reply) = Runtime::bootstrap::<EchoNode>(&line.to_vec()).unwrap();
    assert_eq!(node.id, b"n1".to_vec());
    assert_eq!(reply.body.in_reply_to, Some(1));
    assert!(matches!(reply.body.payload, MessagePayload::InitOk));
    // The init reply's MessageId comes from the node's own allocator, so it
    // is spent: the node's counter stands at 1 and no later envelope of this
    // node can carry MessageId 1 again.
    assert_eq!(reply.body.msg_id, Some(1));
    assert_eq!(node.curr_msg_id, 1);
}

#[test]
fn init_reply_id_is_never_reused() {
    let line = br#"{"src":"c0","dest":"n1","body":{"type":"init","msg_id":1,"node_id":"n1","node_ids":["n1"]}}"#;
    let (mut node, reply) = Runtime::bootstrap::<EchoNode>(&line.to_vec()).unwrap();
    let m = msg("c1", "n1", Some(7), None, MessagePayload::Echo { echo: b"hi".to_vec() });
    let acts = node.handle_message(&m).unwrap();
    match &acts[0] {
        Action::Send(out) => {
            assert_ne!(out.body.msg_id, reply.body.msg_id);
            assert_eq!(out.body.msg_id, Some(2));
        },
        _ => panic!("an echo reply is a plain send"),
    }
}

#[test]
fn topology_with_repeated_key_keeps_the_last_entry() {
    let mut node = BroadcastNode::from_init(b"n1".to_vec(), vec![]);
    let m = msg(
        "c1",
        "n1",
        Some(1),
        None,
        MessagePayload::Topology {
            topology: vec![
                (b"n1".to_vec(), vec![b"n9".to_vec()]),
                (b"n1".to_vec(), vec![b"n2".to_vec()]),
            ],
        },
    );
    node.handle_message(&m).unwrap();
    let b = msg("c1", "n1", Some(2), None, MessagePayload::Broadcast { message: 5 });
    let acts = node.handle_message(&b).unwrap();
    assert_eq!(acts.len(), 2);
    match &acts[0] {
        Action::SendUntilAcked(out) => assert_eq!(out.dest, b"n2".to_vec()),
        _ => panic!("propagation is retried"),
    }
}

#[test]
fn init_handshake_filters_own_id_from_peers() {
    let line = br#"{"src":"c0","dest":"n2","body":{"type":"init","msg_id":4,"node_id":"n2","node_ids":["n1","n2","n3"]}}"#;
    let outcome = Runtime::process_init(&line.to_vec()).unwrap();
    assert_eq!(outcome.node_id, b"n2".to_vec());
    assert_eq!(outcome.peers, vec![b"n1".to_vec(), b"n3".to_vec()]);
}

#[test]
fn init_handshake_rejects_other_first_payloads() {
    let line = br#"{"src":"c0","dest":"n1","body":{"type":"echo","msg_id":1,"echo":"hi"}}"#;
    assert_eq!(Runtime::process_init(&line.to_vec()).unwrap_err(), ProtocolError::ExpectedInit);
    let garbage = b"not json at all".to_vec();
    assert_eq!(Runtime::process_init(&garbage).unwrap_err(), ProtocolError::MalformedLine);
}

#[test]
fn echo_scenario() {
    let mut node = EchoNode::from_init(b"n1".to_vec(), vec![]);
    let line = br#"{"src":"c1","dest":"n1","body":{"type":"echo","msg_id":1,"echo":"hi"}}"#;
    let m = decode(&line.to_vec()).unwrap();
    let acts = node.handle_message(&m).unwrap();
    assert_eq!(acts.len(), 1);
    match &acts[0] {
        Action::Send(out) => {
            assert_eq!(out.src, b"n1".to_vec());
            assert_eq!(out.dest, b"c1".to_vec());
            assert_eq!(out.body.in_reply_to, Some(1));
            assert!(matches!(out.body.payload, MessagePayload::EchoOk { ref echo } if echo == b"hi"));
        },
        _ => panic!("an echo reply is a plain send"),
    }
}

#[test]
fn echo_ignores_envelopes_for_other_nodes() {
    let mut node = EchoNode::from_init(b"n1".to_vec(), vec![]);
    let m = msg("c1", "n9", Some(1), None, MessagePayload::Echo { echo: b"hi".to_vec() });
    let acts = node.handle_message(&m).unwrap();
    assert!(acts.is_empty());
    assert_eq!(node.curr_msg_id, 0);
}

#[test]
fn echo_rejects_foreign_payloads() {
    let mut node = EchoNode::from_init(b"n1".to_vec(), vec![]);
    let m = msg("c1", "n1", Some(1), None, MessagePayload::Add { delta: 1 });
    assert_eq!(node.handle_message(&m).unwrap_err(), Error::UnexpectedPayload);
}

#[test]
fn echo_reports_id_exhaustion() {
    let mut node = EchoNode::from_init(b"n1".to_vec(), vec![]);
    node.curr_msg_id = MessageId::MAX;
    let m = msg("c1", "n1", Some(1), None, MessagePayload::Echo { echo: b"hi".to_vec() });
    assert_eq!(node.handle_message(&m).unwrap_err(), Error::IdsExhausted);
}

#[test]
fn unique_ids_are_distinct_and_prefixed() {
    let mut node = UniqueIdNode::from_init(b"n1".to_vec(), vec![]);
    let mut seen: Vec<Vec<u8>> = Vec::new();
    for k in 1..=3u64 {
        let m = msg("c1", "n1", Some(k), None, MessagePayload::Generate);
        let acts = node.handle_message(&m).unwrap();
        assert_eq!(acts.len(), 1);
        match &acts[0] {
            Action::Send(out) => match &out.body.payload {
                MessagePayload::GenerateOk { id } => {
                    assert_eq!(id, format!("n1-{}", k).as_bytes());
                    assert!(!seen.contains(id));
                    seen.push(id.clone());
                },
                _ => panic!("generate is answered by generate_ok"),
            },
            _ => panic!("a generate reply is a plain send"),
        }
    }
}

fn install_topology(node: &mut BroadcastNode) {
    let m = msg(
        "c1",
        "n1",
        Some(1),
        None,
        MessagePayload::Topology {
            topology: vec![
                (b"n1".to_vec(), vec![b"n2".to_vec()]),
                (b"n2".to_vec(), vec![b"n1".to_vec()]),
            ],
        },
    );
    let acts = node.handle_message(&m).unwrap();
    assert_eq!(acts.len(), 1);
    match &acts[0] {
        Action::Send(out) => assert!(matches!(out.body.payload, MessagePayload::TopologyOk)),
        _ => panic!("a topology install is acknowledged by a plain send"),
    }
}

#[test]
fn broadcast_scenario() {
    let mut node = BroadcastNode::from_init(b"n1".to_vec(), vec![]);
    install_topology(&mut node);
    let m = msg("c1", "n1", Some(2), None, MessagePayload::Broadcast { message: 5 });
    let acts = node.handle_message(&m).unwrap();
    assert_eq!(acts.len(), 2);
    let retry_id: MessageId = match &acts[0] {
        Action::SendUntilAcked(out) => {
            assert_eq!(out.src, b"n1".to_vec());
            assert_eq!(out.dest, b"n2".to_vec());
            assert_eq!(out.body.in_reply_to, None);
            assert!(matches!(out.body.payload, MessagePayload::Broadcast { message: 5 }));
            out.body.msg_id.unwrap()
        },
        _ => panic!("propagation towards n2 is retried"),
    };
    match &acts[1] {
        Action::Send(out) => {
            assert_eq!(out.dest, b"c1".to_vec());
            assert_eq!(out.body.in_reply_to, Some(2));
            assert!(matches!(out.body.payload, MessagePayload::BroadcastOk));
        },
        _ => panic!("the client acknowledgment is a plain send"),
    }
    // The retried copy stays registered until its acknowledgment arrives.
    assert!(node.unacked.contains(retry_id));
    let ack = msg("n2", "n1", Some(9), Some(retry_id), MessagePayload::BroadcastOk);
    let acts2 = node.handle_message(&ack).unwrap();
    assert!(acts2.is_empty());
    assert!(!node.unacked.contains(retry_id));
}

#[test]
fn broadcast_duplicate_value_is_acked_but_not_repropagated() {
    let mut node = BroadcastNode::from_init(b"n1".to_vec(), vec![]);
    install_topology(&mut node);
    let first = msg("c1", "n1", Some(2), None, MessagePayload::Broadcast { message: 5 });
    let acts1 = node.handle_message(&first).unwrap();
    assert_eq!(acts1.len(), 2);
    assert_eq!(node.seen, vec![5]);
    let second = msg("c1", "n1", Some(3), None, MessagePayload::Broadcast { message: 5 });
    let acts2 = node.handle_message(&second).unwrap();
    assert_eq!(acts2.len(), 1, "only the acknowledgment, no new wave");
    assert!(matches!(&acts2[0], Action::Send(out)
        if matches!(out.body.payload, MessagePayload::BroadcastOk)));
    assert_eq!(node.seen, vec![5], "exactly one entry per value");
}

#[test]
fn broadcast_does_not_echo_back_to_sender() {
    let mut node = BroadcastNode::from_init(b"n1".to_vec(), vec![]);
    install_topology(&mut node);
    // The only neighbor is the immediate sender: ack only, no retries.
    let m = msg("n2", "n1", Some(2), None, MessagePayload::Broadcast { message: 7 });
    let acts = node.handle_message(&m).unwrap();
    assert_eq!(acts.len(), 1);
    assert!(matches!(&acts[0], Action::Send(_)));
}

#[test]
fn broadcast_read_returns_seen_values() {
    let mut node = BroadcastNode::from_init(b"n1".to_vec(), vec![]);
    install_topology(&mut node);
    for v in [5, -3] {
        let m = msg("c1", "n1", Some(2), None, MessagePayload::Broadcast { message: v });
        node.handle_message(&m).unwrap();
    }
    let m = msg("c1", "n1", Some(4), None, MessagePayload::Read);
    let acts = node.handle_message(&m).unwrap();
    match &acts[0] {
        Action::Send(out) => {
            assert!(matches!(&out.body.payload, MessagePayload::ReadOk { messages } if messages == &vec![5, -3]));
        },
        _ => panic!("a read reply is a plain send"),
    }
}

#[test]
fn broadcast_without_topology_is_fatal() {
    let mut node = BroadcastNode::from_init(b"n1".to_vec(), vec![]);
    let m = msg("c1", "n1", Some(2), None, MessagePayload::Broadcast { message: 5 });
    assert_eq!(node.handle_message(&m).unwrap_err(), Error::TopologyMissing);
}

#[test]
fn broadcast_outside_topology_is_fatal() {
    let mut node = BroadcastNode::from_init(b"n1".to_vec(), vec![]);
    let m = msg(
        "c1",
        "n1",
        Some(1),
        None,
        MessagePayload::Topology { topology: vec![(b"n2".to_vec(), vec![b"n1".to_vec()])] },
    );
    node.handle_message(&m).unwrap();
    let b = msg("c1", "n1", Some(2), None, MessagePayload::Broadcast { message: 5 });
    assert_eq!(node.handle_message(&b).unwrap_err(), Error::UnknownNode);
}

#[test]
fn counter_scenario_two_adds_then_read() {
    let mut node = GCounterNode::from_init(b"n1".to_vec(), vec![]);
    for k in [1u64, 2] {
        let m = msg("c1", "n1", Some(k), None, MessagePayload::Add { delta: 3 });
        let acts = node.handle_message(&m).unwrap();
        assert_eq!(acts.len(), 1);
        assert!(matches!(&acts[0], Action::Send(out)
            if matches!(out.body.payload, MessagePayload::AddOk)));
    }
    let m = msg("c1", "n1", Some(3), None, MessagePayload::Read);
    let acts = node.handle_message(&m).unwrap();
    match &acts[0] {
        Action::Send(out) => {
            assert!(matches!(out.body.payload, MessagePayload::ReadOkValue { value: 6 }));
        },
        _ => panic!("a read reply is a plain send"),
    }
}

#[test]
fn counter_propagates_adds_to_neighbors() {
    let mut node = GCounterNode::from_init(b"n1".to_vec(), vec![b"n2".to_vec(), b"n3".to_vec()]);
    let m = msg("c1", "n1", Some(1), None, MessagePayload::Add { delta: 4 });
    let acts = node.handle_message(&m).unwrap();
    assert_eq!(acts.len(), 3);
    for (act, dest) in acts.iter().take(2).zip([b"n2", b"n3"]) {
        match act {
            Action::SendUntilAcked(out) => {
                assert_eq!(out.dest, dest.to_vec());
                assert!(matches!(out.body.payload, MessagePayload::Add { delta: 4 }));
                assert!(node.unacked.contains(out.body.msg_id.unwrap()));
            },
            _ => panic!("propagated adds are retried"),
        }
    }
    assert!(matches!(&acts[2], Action::Send(out)
        if matches!(out.body.payload, MessagePayload::AddOk) && out.body.in_reply_to == Some(1)));
    assert_eq!(node.counter, 4);
}

#[test]
fn counter_overflow_is_fatal() {
    let mut node = GCounterNode::from_init(b"n1".to_vec(), vec![]);
    node.counter = u32::MAX - 1;
    let m = msg("c1", "n1", Some(1), None, MessagePayload::Add { delta: 2 });
    assert_eq!(node.handle_message(&m).unwrap_err(), Error::CounterOverflow);
    assert_eq!(node.counter, u32::MAX - 1);
}

#[test]
fn retry_loop_resends_until_acknowledged() {
    // One retry loop, simulated: poll membership, count the resends, deliver
    // the acknowledgment, and observe that polling stops the loop.
    let mut registry = UnackedRegistry::new();
    let id: MessageId = 42;
    registry.insert(id);
    let mut resends: usize = 0;
    for _tick in 0..3 {
        if registry.contains(id) {
            resends += 1;
        }
    }
    assert_eq!(resends, 3, "unacknowledged entries keep resending");
    registry.remove(id);
    for _tick in 0..3 {
        assert!(!registry.contains(id), "no further retries after the acknowledgment");
    }
}

#[test]
fn acknowledging_untracked_ids_is_harmless() {
    let mut registry = UnackedRegistry::new();
    registry.insert(7);
    registry.insert(9);
    registry.remove(8);
    assert!(registry.contains(7));
    assert!(registry.contains(9));
    assert!(!registry.contains(8));
    // A node-level late acknowledgment is equally harmless.
    let mut node = BroadcastNode::from_init(b"n1".to_vec(), vec![]);
    let ack = msg("n2", "n1", Some(1), Some(99), MessagePayload::BroadcastOk);
    let acts = node.handle_message(&ack).unwrap();
    assert!(acts.is_empty());
}

#[test]
fn duplicate_registration_keeps_one_entry() {
    let mut registry = UnackedRegistry::new();
    registry.insert(5);
    registry.insert(5);
    registry.remove(5);
    assert!(!registry.contains(5));
}
