use anoma_client::tx::Transaction;
use anoma_client::wire::{bytes_equal, copy_range, put_varint, read_varint};

fn tx(code: Vec<u8>, data: Option<Vec<u8>>) -> Transaction {
    Transaction::new(code, data)
}

#[test]
fn encode_code_only() {
    assert_eq!(tx(vec![1, 2, 3], None).encode(), vec![0x0a, 3, 1, 2, 3]);
}

#[test]
fn encode_code_and_data() {
    assert_eq!(
        tx(vec![1, 2, 3], Some(vec![0xab])).encode(),
        vec![0x0a, 3, 1, 2, 3, 0x12, 1, 0xab]
    );
}

#[test]
fn encode_keeps_present_empty_data() {
    assert_eq!(tx(vec![7], Some(vec![])).encode(), vec![0x0a, 1, 7, 0x12, 0]);
}

#[test]
fn encode_long_code_uses_two_byte_length() {
    let code = vec![5u8; 200];
    let enc = tx(code.clone(), None).encode();
    assert_eq!(&enc[..3], &[0x0a, 0xc8, 0x01]);
    assert_eq!(&enc[3..], &code[..]);
}

#[test]
fn encode_is_deterministic() {
    let t = tx(vec![9, 8, 7], Some(vec![1, 2]));
    assert_eq!(t.encode(), t.encode());
}

#[test]
fn round_trip_with_and_without_data() {
    for (code, data) in [
        (vec![1u8], None),
        (vec![1u8, 2, 3], Some(vec![4u8, 5])),
        (vec![0u8; 300], Some(vec![])),
        (vec![0xffu8; 130], Some(vec![0x80u8; 129])),
    ] {
        let enc = tx(code.clone(), data.clone()).encode();
        let back = Transaction::decode(&enc).expect("canonical encoding decodes");
        assert_eq!(back.code, code);
        assert_eq!(back.data, data);
    }
}

#[test]
fn decode_empty_input_is_empty_transaction() {
    let back = Transaction::decode(&vec![]).unwrap();
    assert!(back.code.is_empty());
    assert_eq!(back.data, None);
}

#[test]
fn decode_rejects_non_canonical_input() {
    // empty code written out explicitly
    assert!(Transaction::decode(&vec![0x0a, 0]).is_none());
    // fields out of order
    assert!(Transaction::decode(&vec![0x12, 1, 5, 0x0a, 1, 1]).is_none());
    // trailing byte
    assert!(Transaction::decode(&vec![0x0a, 1, 1, 0]).is_none());
    // length past the end
    assert!(Transaction::decode(&vec![0x0a, 5, 1]).is_none());
    // padded length varint
    assert!(Transaction::decode(&vec![0x0a, 0x81, 0x00, 1]).is_none());
    // unknown field
    assert!(Transaction::decode(&vec![0x1a, 1, 1]).is_none());
}

#[test]
fn varint_writes_and_reads_back() {
    let mut buf = Vec::new();
    put_varint(300, &mut buf);
    assert_eq!(buf, vec![0xac, 0x02]);
    assert_eq!(read_varint(&buf, 0), Some((300, 2)));
    let mut big = Vec::new();
    put_varint(u64::MAX, &mut big);
    assert_eq!(big.len(), 10);
    assert_eq!(read_varint(&big, 0), Some((u64::MAX, 10)));
    assert_eq!(read_varint(&vec![0x80], 0), None);
}

#[test]
fn byte_helpers() {
    let v = vec![1u8, 2, 3, 4];
    assert_eq!(copy_range(&v, 1, 3), vec![2, 3]);
    assert!(bytes_equal(&v, &vec![1, 2, 3, 4]));
    assert!(!bytes_equal(&v, &vec![1, 2, 3]));
    assert!(!bytes_equal(&v, &vec![1, 2, 3, 5]));
}
