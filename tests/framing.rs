use blobfish::error::ProtocolError;
use blobfish::framing::{decode_frames, encode_frames, FrameHeader, FrameReader};
use blobfish::protocol::{MessageKind, BLOCK_SIZE_LESS_HEADER};

fn payload(n: usize) -> Vec<u8> {
    (0..n).map(|i| (i % 251) as u8).collect()
}

fn concat(frames: &[Vec<u8>]) -> Vec<u8> {
    frames.iter().flat_map(|f| f.iter().copied()).collect()
}

#[test]
fn small_payload_is_one_frame() {
    let frames = encode_frames(MessageKind::Piece, b"abc");
    assert_eq!(frames.len(), 1);
    assert_eq!(frames[0], vec![0, 3, 0, 80, b'a', b'b', b'c']);
}

#[test]
fn empty_payload_is_one_empty_frame() {
    let frames = encode_frames(MessageKind::Done, &[]);
    assert_eq!(frames, vec![vec![0, 0, 0, 100]]);
}

#[test]
fn boundary_aligned_payload_ends_with_empty_frame() {
    let p = payload(16380);
    let frames = encode_frames(MessageKind::MyPkg, &p);
    assert_eq!(frames.len(), 2);
    assert_eq!(frames[0].len(), 16384);
    assert_eq!(&frames[0][..4], &[0x3f, 0xfc, 0, 10]);
    assert_eq!(&frames[0][4..], &p[..]);
    assert_eq!(frames[1], vec![0, 0, 0, 10]);
}

#[test]
fn segmentation_counts_frames() {
    for n in [0usize, 1, 16379, 16380, 16381, 32760, 40000] {
        let frames = encode_frames(MessageKind::PieceExchange, &payload(n));
        assert_eq!(frames.len(), n / BLOCK_SIZE_LESS_HEADER + 1);
        let last = frames.last().unwrap();
        let len = u16::from_be_bytes([last[0], last[1]]) as usize;
        assert_eq!(len, n % BLOCK_SIZE_LESS_HEADER);
        for f in &frames {
            let flen = u16::from_be_bytes([f[0], f[1]]) as usize;
            assert!(flen <= BLOCK_SIZE_LESS_HEADER);
            assert_eq!(f.len(), 4 + flen);
            assert_eq!(u16::from_be_bytes([f[2], f[3]]), 60);
        }
    }
}

#[test]
fn frames_decode_back_to_the_message() {
    for n in [0usize, 5, 16380, 40000] {
        let p = payload(n);
        let mut wire = concat(&encode_frames(MessageKind::Piece, &p));
        let used = wire.len();
        wire.extend_from_slice(&[9, 9, 9]);
        let (res, consumed) = decode_frames(&wire).unwrap();
        assert_eq!(res.message_type, 80);
        assert_eq!(res.raw_msg, p);
        assert_eq!(consumed, used);
    }
}

#[test]
fn oversized_frame_length_is_invalid() {
    let wire = vec![0x80, 0x00, 0, 10, 1, 2, 3];
    assert_eq!(decode_frames(&wire).err(), Some(ProtocolError::InvalidFrame { length: 0x8000 }));
}

#[test]
fn unknown_type_is_invalid() {
    let wire = vec![0, 1, 0, 11, 7];
    assert_eq!(
        decode_frames(&wire).err(),
        Some(ProtocolError::InvalidMessageType { message_type: 11 })
    );
}

#[test]
fn later_frame_of_another_type_is_refused() {
    let mut wire = concat(&encode_frames(MessageKind::MyPkg, &payload(16380)));
    wire.truncate(16384);
    wire.extend_from_slice(&[0, 0, 0, 20]);
    assert_eq!(
        decode_frames(&wire).err(),
        Some(ProtocolError::FrameTypeMismatch { expected: 10, found: 20 })
    );
}

#[test]
fn truncated_stream_is_closed() {
    assert_eq!(decode_frames(&[0, 5]).err(), Some(ProtocolError::TransportClosed));
    assert_eq!(decode_frames(&[0, 5, 0, 10, 1, 2]).err(), Some(ProtocolError::TransportClosed));
}

#[test]
fn reader_collects_frames_one_by_one() {
    let p = payload(20000);
    let frames = encode_frames(MessageKind::Piece, &p);
    let mut reader = FrameReader::new();
    let h0 = reader.read_header(&frames[0][..4]).unwrap();
    assert_eq!(h0, FrameHeader { length: 16380, message_type: 80 });
    assert!(reader.push(h0, &frames[0][4..]).is_none());
    assert_eq!(
        reader.read_header(&[0, 0, 0, 90]).err(),
        Some(ProtocolError::FrameTypeMismatch { expected: 80, found: 90 })
    );
    let h1 = reader.read_header(&frames[1][..4]).unwrap();
    assert_eq!(h1.length, 3620);
    let done = reader.push(h1, &frames[1][4..]).unwrap();
    assert_eq!(done.message_type, 80);
    assert_eq!(done.raw_msg, p);
    assert!(reader.message_type.is_none());
    assert!(reader.raw_msg.is_empty());
}
