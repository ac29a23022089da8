use swall_core::framing::{be_bytes, be_len, push_framed, split_frame, split_sized_frame, MSG_SPLITTER};

#[test]
fn test_split_frame_none_without_sentinel() {
    let buf = b"partial".to_vec();
    assert!(split_frame(&buf).is_none());
    let empty: Vec<u8> = Vec::new();
    assert!(split_frame(&empty).is_none());
}

#[test]
fn test_split_frame_takes_first_record() {
    let mut buf = b"one".to_vec();
    buf.push(MSG_SPLITTER);
    buf.extend_from_slice(b"two");
    buf.push(MSG_SPLITTER);
    buf.extend_from_slice(b"thr");
    let (frame, rest) = split_frame(&buf).unwrap();
    assert_eq!(frame, b"one".to_vec());
    let (frame2, rest2) = split_frame(&rest).unwrap();
    assert_eq!(frame2, b"two".to_vec());
    assert_eq!(rest2, b"thr".to_vec());
    assert!(split_frame(&rest2).is_none());
}

#[test]
fn test_split_frame_empty_record() {
    let buf = vec![MSG_SPLITTER];
    let (frame, rest) = split_frame(&buf).unwrap();
    assert!(frame.is_empty());
    assert!(rest.is_empty());
}

#[test]
fn test_push_framed_round_trip() {
    let mut out: Vec<u8> = Vec::new();
    push_framed(&b"hello".to_vec(), &mut out);
    push_framed(&b"world".to_vec(), &mut out);
    let (f1, rest) = split_frame(&out).unwrap();
    let (f2, rest2) = split_frame(&rest).unwrap();
    assert_eq!(f1, b"hello".to_vec());
    assert_eq!(f2, b"world".to_vec());
    assert!(rest2.is_empty());
}

#[test]
fn test_be_len_values() {
    assert_eq!(be_len(0, 0, 0, 0), 0);
    assert_eq!(be_len(0, 0, 0, 9), 9);
    assert_eq!(be_len(0, 0, 1, 0), 256);
    assert_eq!(be_len(1, 2, 3, 4), 0x01020304);
    assert_eq!(be_len(255, 255, 255, 255), u32::MAX);
}

#[test]
fn test_be_bytes_round_trip() {
    for n in [0u32, 1, 255, 256, 65_535, 65_536, 0x01020304, u32::MAX] {
        let (b0, b1, b2, b3) = be_bytes(n);
        assert_eq!(be_len(b0, b1, b2, b3), n);
    }
    assert_eq!(be_bytes(0x01020304), (1, 2, 3, 4));
}

#[test]
fn test_split_sized_frame() {
    // header shorter than four bytes: wait for more input
    assert!(split_sized_frame(&vec![0, 0, 0]).is_none());
    // payload not fully arrived: wait
    assert!(split_sized_frame(&vec![0, 0, 0, 5, b'a', b'b']).is_none());
    // a complete frame, with bytes of the next one behind it
    let buf = vec![0, 0, 0, 3, b'a', b'b', b'c', 0, 0];
    let (payload, rest) = split_sized_frame(&buf).unwrap();
    assert_eq!(payload, b"abc".to_vec());
    assert_eq!(rest, vec![0, 0]);
    // an empty payload is a valid frame
    let (payload, rest) = split_sized_frame(&vec![0, 0, 0, 0, 7]).unwrap();
    assert!(payload.is_empty());
    assert_eq!(rest, vec![7]);
}
