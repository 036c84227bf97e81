use quad_net::codec::{encode_frame, read_be_u32, ByteSource, MessageReader, ReadOutcome};

fn source_with(bytes: &[u8], open: bool) -> ByteSource {
    let mut s = ByteSource::new();
    s.push(bytes);
    if !open {
        s.end();
    }
    s
}

#[test]
fn encode_frame_prefixes_big_endian_length() {
    assert_eq!(encode_frame(&[0x01, 0x02, 0x03]), Some(vec![0, 0, 0, 3, 0x01, 0x02, 0x03]));
    assert_eq!(encode_frame(&[]), Some(vec![0, 0, 0, 0]));
    let big = vec![7u8; 0x0102];
    let f = encode_frame(&big).unwrap();
    assert_eq!(&f[..4], &[0, 0, 1, 2]);
    assert_eq!(f.len(), 4 + 0x0102);
}

#[test]
fn read_be_u32_reads_most_significant_first() {
    assert_eq!(read_be_u32(&[0x12, 0x34, 0x56, 0x78]), 0x1234_5678);
    assert_eq!(read_be_u32(&[0xFF, 0xFF, 0xFF, 0xFF, 9]), u32::MAX);
}

#[test]
fn round_trip_reproduces_payload_and_returns_to_empty() {
    for payload in [vec![], vec![0x42], (0..=255u8).collect::<Vec<u8>>()] {
        let mut src = source_with(&encode_frame(&payload).unwrap(), true);
        let mut r = MessageReader::new();
        assert_eq!(r.next(&mut src), Ok(None));
        assert_eq!(r, MessageReader::Amount(payload.len() as u32));
        assert_eq!(r.next(&mut src), Ok(Some(payload.clone())));
        assert_eq!(r, MessageReader::Empty);
        assert_eq!(src.available(), 0);
    }
}

#[test]
fn loopback_scenario_prefix_three_then_body() {
    let wire = encode_frame(&[0x01, 0x02, 0x03]).unwrap();
    let mut src = ByteSource::new();
    src.push(&wire);
    let mut r = MessageReader::new();
    assert_eq!(r.next(&mut src), Ok(None));
    assert_eq!(r, MessageReader::Amount(3));
    assert_eq!(r.next(&mut src), Ok(Some(vec![0x01, 0x02, 0x03])));
}

#[test]
fn partial_data_is_pending_never_a_truncated_frame() {
    let wire = encode_frame(&[9, 8, 7, 6, 5]).unwrap();
    for k in 0..wire.len() {
        let mut src = source_with(&wire[..k], true);
        let mut r = MessageReader::new();
        for _ in 0..4 {
            assert_eq!(r.next(&mut src), Ok(None));
        }
        // the rest arrives: the whole frame comes out
        src.push(&wire[k..]);
        let mut got = None;
        for _ in 0..3 {
            if let Ok(Some(f)) = r.next(&mut src) {
                got = Some(f);
                break;
            }
        }
        assert_eq!(got, Some(vec![9, 8, 7, 6, 5]));
    }
}

#[test]
fn reserved_length_is_fatal_without_reading_body() {
    let mut src = source_with(&[0xFF, 0xFF, 0xFF, 0xFF, 1, 2, 3], true);
    let mut r = MessageReader::new();
    assert_eq!(r.next(&mut src), Ok(None));
    assert_eq!(r, MessageReader::Amount(u32::MAX));
    assert_eq!(r.next(&mut src), Err(()));
    assert_eq!(src.available(), 3);
    assert_eq!(r, MessageReader::Amount(u32::MAX));
}

#[test]
fn ended_source_inside_a_frame_is_fatal() {
    let mut src = source_with(&[0, 0], false);
    let mut r = MessageReader::new();
    assert_eq!(r.next(&mut src), Err(()));
    let mut src = source_with(&[0, 0, 0, 5, 1, 2], false);
    let mut r = MessageReader::new();
    assert_eq!(r.next(&mut src), Ok(None));
    assert_eq!(r.next(&mut src), Err(()));
}

#[test]
fn two_frames_back_to_back() {
    let mut wire = encode_frame(&[1]).unwrap();
    wire.extend(encode_frame(&[2, 2]).unwrap());
    let mut src = source_with(&wire, true);
    let mut r = MessageReader::new();
    let mut frames = vec![];
    for _ in 0..6 {
        if let Ok(Some(f)) = r.next(&mut src) {
            frames.push(f);
        }
    }
    assert_eq!(frames, vec![vec![1], vec![2, 2]]);
}

#[test]
fn read_exact_takes_all_or_nothing() {
    let mut src = source_with(&[1, 2, 3], true);
    assert!(matches!(src.read_exact(4), ReadOutcome::WouldBlock));
    assert_eq!(src.available(), 3);
    match src.read_exact(2) {
        ReadOutcome::Filled(v) => assert_eq!(v, vec![1, 2]),
        _ => panic!("expected two bytes"),
    }
    src.end();
    assert!(matches!(src.read_exact(2), ReadOutcome::Failed));
    assert_eq!(src.available(), 1);
}
