use anoma_client::error::ClientError;
use anoma_client::intent::{frame, gossip_outcome, wrap, GossipMessage, Timestamp};

#[test]
fn wrap_keeps_payload_and_time() {
    let payload = b"{\"sell\":\"btc\"}".to_vec();
    let now = Timestamp::new(1_700_000_000, 42);
    let msg = wrap(payload.clone(), now);
    assert_eq!(msg.payload(), &payload);
    let GossipMessage::Intent(m) = msg else {
        panic!("not an intent");
    };
    assert_eq!(m.intent.data, payload);
    assert_eq!(m.intent.timestamp, now);
}

#[test]
fn intent_encoding_bytes() {
    let msg = wrap(vec![1, 2, 3], Timestamp::new(10, 5));
    let intent = vec![0x0a, 3, 1, 2, 3, 0x12, 4, 0x08, 10, 0x10, 5];
    let mut expected = vec![0x0a, 13, 0x0a, 11];
    expected.extend_from_slice(&intent);
    assert_eq!(msg.encode(), expected);
}

#[test]
fn intent_encoding_zero_time_and_empty_payload() {
    let msg = wrap(vec![], Timestamp::new(0, 0));
    assert_eq!(msg.encode(), vec![0x0a, 4, 0x0a, 2, 0x12, 0]);
}

#[test]
fn intent_encoding_negative_seconds() {
    let msg = wrap(vec![], Timestamp::new(-1, 0));
    let mut ts = vec![0x08];
    ts.extend_from_slice(&[0xff; 9]);
    ts.push(0x01);
    let mut intent = vec![0x12, ts.len() as u8];
    intent.extend_from_slice(&ts);
    let mut expected = vec![0x0a, intent.len() as u8 + 2, 0x0a, intent.len() as u8];
    expected.extend_from_slice(&intent);
    assert_eq!(msg.encode(), expected);
}

#[test]
fn frame_prefixes_flag_and_length() {
    assert_eq!(frame(&vec![7, 8, 9]), vec![0, 0, 0, 0, 3, 7, 8, 9]);
    let big = vec![1u8; 0x10203];
    let f = frame(&big);
    assert_eq!(&f[..5], &[0, 0, 1, 2, 3]);
    assert_eq!(f.len(), 5 + 0x10203);
}

#[test]
fn gossip_status_is_judged() {
    assert!(gossip_outcome(0, &String::new()).is_ok());
    match gossip_outcome(3, &"bad intent".to_string()) {
        Err(ClientError::GossipRejected(m)) => assert_eq!(m, "bad intent"),
        other => panic!("unexpected {:?}", other),
    }
}
