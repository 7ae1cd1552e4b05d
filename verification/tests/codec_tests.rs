//! The wire codec: round trips, tolerant decoding, and malformed input.

use node_runtime::codec::{decode, encode};
use node_runtime::message::{Message, MessageBody, MessagePayload};

fn msg(src: &str, dest: &str, msg_id: Option<u64>, in_reply_to: Option<u64>, payload: MessagePayload) -> Message {
    Message {
        src: src.as_bytes().to_vec(),
        dest: dest.as_bytes().to_vec(),
        body: MessageBody { msg_id, in_reply_to, payload },
    }
}

fn round_trips(m: &Message) {
    let bytes = encode(m);
    let back = decode(&bytes).expect("canonical rendering must decode");
    assert_eq!(encode(&back), bytes);
    assert_eq!(back.src, m.src);
    assert_eq!(back.dest, m.dest);
    assert_eq!(back.body.msg_id, m.body.msg_id);
    assert_eq!(back.body.in_reply_to, m.body.in_reply_to);
}

#[test]
fn round_trip_every_payload() {
    let payloads = vec![
        MessagePayload::Init {
            node_id: b"n1".to_vec(),
            node_ids: vec![b"n1".to_vec(), b"n2".to_vec()],
        },
        MessagePayload::InitOk,
        MessagePayload::Echo { echo: b"hi".to_vec() },
        MessagePayload::EchoOk { echo: b"a \"quoted\" \\ text".to_vec() },
        MessagePayload::Generate,
        MessagePayload::GenerateOk { id: b"n1-7".to_vec() },
        MessagePayload::Broadcast { message: -12345 },
        MessagePayload::BroadcastOk,
        MessagePayload::Read,
        MessagePayload::ReadOk { messages: vec![1, -2, 2147483647, -2147483648] },
        MessagePayload::ReadOkValue { value: 4294967295 },
        MessagePayload::Topology {
            topology: vec![
                (b"n1".to_vec(), vec![b"n2".to_vec()]),
                (b"n2".to_vec(), vec![b"n1".to_vec(), b"n3".to_vec()]),
                (b"n3".to_vec(), vec![]),
            ],
        },
        MessagePayload::TopologyOk,
        MessagePayload::Add { delta: 3 },
        MessagePayload::AddOk,
    ];
    for p in payloads {
        round_trips(&msg("a", "b", Some(18446744073709551615), Some(1), p));
    }
}

#[test]
fn round_trip_without_correlation_ids() {
    round_trips(&msg("n1", "c1", None, None, MessagePayload::Echo { echo: b"x".to_vec() }));
    round_trips(&msg("n1", "n2", Some(0), None, MessagePayload::Broadcast { message: 0 }));
}

#[test]
fn canonical_echo_encoding_is_exact() {
    let m = msg("n1", "c1", Some(2), Some(1), MessagePayload::EchoOk { echo: b"hi".to_vec() });
    let expected =
        br#"{"src":"n1","dest":"c1","body":{"msg_id":2,"in_reply_to":1,"type":"echo_ok","echo":"hi"}}"#;
    assert_eq!(encode(&m), expected.to_vec());
}

#[test]
fn decode_accepts_insignificant_whitespace() {
    let line = b" { \"src\" : \"c1\" ,\t\"dest\": \"n1\" , \"body\" : { \"msg_id\" : 1 , \"type\" : \"echo\" , \"echo\" : \"hi\" } } ";
    let m = decode(&line.to_vec()).expect("whitespace between tokens is insignificant");
    assert_eq!(m.src, b"c1".to_vec());
    assert_eq!(m.dest, b"n1".to_vec());
    assert_eq!(m.body.msg_id, Some(1));
    assert!(matches!(m.body.payload, MessagePayload::Echo { ref echo } if echo == b"hi"));
}

#[test]
fn decode_accepts_whitespace_around_unknown_fields_and_arrays() {
    let line = br#"{ "src": "c0", "dest": "n1", "trace": { "hops": [ 1 , 2 ], "tag": "x" }, "body": { "type": "init", "extra" : [ true , null ] , "msg_id": 1, "node_id": "n1", "node_ids": [ "n1" , "n2" ] } }"#;
    let m = decode(&line.to_vec()).expect("spaced unknown fields must not break decoding");
    match m.body.payload {
        MessagePayload::Init { node_id, node_ids } => {
            assert_eq!(node_id, b"n1".to_vec());
            assert_eq!(node_ids, vec![b"n1".to_vec(), b"n2".to_vec()]);
        },
        _ => panic!("the payload is the init handshake"),
    }
}

#[test]
fn string_escapes_round_trip() {
    let texts: Vec<Vec<u8>> = vec![
        b"line\nbreak".to_vec(),
        b"tab\there".to_vec(),
        vec![0, 1, 7, 8, 9, 10, 11, 12, 13, 27, 31],
        b"quote\" and back\\slash and /".to_vec(),
        vec![0xc3, 0xa9],
    ];
    for text in texts {
        let m = msg("a", "b", Some(1), None, MessagePayload::Echo { echo: text.clone() });
        let bytes = encode(&m);
        let back = decode(&bytes).expect("every byte string is representable");
        assert!(matches!(back.body.payload, MessagePayload::Echo { ref echo } if echo == &text));
    }
}

#[test]
fn decode_reads_standard_escapes() {
    let line = br#"{"src":"a","dest":"b","body":{"type":"echo","msg_id":1,"echo":"a\nb\tc\u0001d\/e\u0041"}}"#;
    let m = decode(&line.to_vec()).unwrap();
    match m.body.payload {
        MessagePayload::Echo { echo } => {
            assert_eq!(echo, b"a\nb\tc\x01d/eA".to_vec());
        },
        _ => panic!("the payload is an echo"),
    }
}

#[test]
fn decode_accepts_reordered_fields() {
    let line = br#"{"body":{"type":"echo","echo":"hi","msg_id":1},"dest":"n1","src":"c1"}"#;
    let m = decode(&line.to_vec()).expect("reordered fields are fine");
    assert_eq!(m.src, b"c1".to_vec());
    assert_eq!(m.dest, b"n1".to_vec());
    assert_eq!(m.body.msg_id, Some(1));
    assert_eq!(m.body.in_reply_to, None);
    assert!(matches!(m.body.payload, MessagePayload::Echo { ref echo } if echo == b"hi"));
}

#[test]
fn decode_skips_unknown_fields() {
    let line = br#"{"src":"c1","trace":{"hops":[1,2,{"x":true}],"note":"a\"b"},"dest":"n1","body":{"msg_id":7,"extra":null,"in_reply_to":null,"type":"read","flag":false}}"#;
    let m = decode(&line.to_vec()).expect("unknown fields must not break decoding");
    assert_eq!(m.src, b"c1".to_vec());
    assert_eq!(m.body.msg_id, Some(7));
    assert!(matches!(m.body.payload, MessagePayload::Read));
}

#[test]
fn decode_rejects_malformed_lines() {
    let cases: Vec<&[u8]> = vec![
        b"",
        b"{",
        b"null",
        br#"{"src":"a"}"#,
        br#"{"src":"a","dest":"b"}"#,
        br#"{"src":"a","dest":"b","body":{}}"#,
        br#"{"src":"a","dest":"b","body":{"type":"echo"}}"#,
        br#"{"src":"a","dest":"b","body":{"type":"no_such_tag"}}"#,
        br#"{"src":"a","dest":"b","body":{"type":"echo","echo":"x"}} x"#,
        br#"{"src":"a","dest":"b","body":{"type":"echo","echo":"\q"}}"#,
        br#"{"src":"a","dest":"b","body":{"msg_id":99999999999999999999999,"type":"read"}}"#,
        br#"{"src":"a","dest":"b","body":{"type":"add","delta":4294967296}}"#,
        br#"{"src":"a","dest":"b","body":{"type":"broadcast","message":2147483648}}"#,
    ];
    for c in cases {
        assert!(decode(&c.to_vec()).is_none(), "should reject: {:?}", String::from_utf8_lossy(c));
    }
}

#[test]
fn decode_reads_null_and_missing_ids_alike() {
    let with_null = br#"{"src":"a","dest":"b","body":{"msg_id":null,"in_reply_to":null,"type":"read"}}"#;
    let missing = br#"{"src":"a","dest":"b","body":{"type":"read"}}"#;
    let m1 = decode(&with_null.to_vec()).unwrap();
    let m2 = decode(&missing.to_vec()).unwrap();
    assert_eq!(m1.body.msg_id, None);
    assert_eq!(m2.body.msg_id, None);
    assert_eq!(m1.body.in_reply_to, None);
}

#[test]
fn both_read_replies_share_one_tag() {
    let seen = msg("n1", "c1", Some(1), Some(1), MessagePayload::ReadOk { messages: vec![5] });
    let total = msg("n1", "c1", Some(1), Some(1), MessagePayload::ReadOkValue { value: 6 });
    let seen_bytes = encode(&seen);
    let total_bytes = encode(&total);
    assert!(String::from_utf8(seen_bytes.clone()).unwrap().contains(r#""type":"read_ok""#));
    assert!(String::from_utf8(total_bytes.clone()).unwrap().contains(r#""type":"read_ok""#));
    assert!(matches!(
        decode(&seen_bytes).unwrap().body.payload,
        MessagePayload::ReadOk { ref messages } if messages == &vec![5]
    ));
    assert!(matches!(
        decode(&total_bytes).unwrap().body.payload,
        MessagePayload::ReadOkValue { value: 6 }
    ));
}
